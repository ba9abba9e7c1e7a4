//! Loading WebAssembly modules: the size limit, the content hash that
//! identifies a module, and the cache of modules compiled so far.
use vstd::prelude::*;
use crate::http_adapter::{decimal, decimal_string};
use crate::json::str_eq;
use crate::runtime_config::{WasmConfig, WasmModuleHandle};
use crate::registry::{texts_of, copy_strings};
use crate::template::string_from_chars;
use crate::types::bytes_to_vec;

verus! {

/// The MD5 digest of `data`, as the `md5` crate computes it.
pub uninterp spec fn md5_digest(data: Seq<u8>) -> Seq<u8>;

/// `md5::compute`: the 16 bytes of the digest of `data`.
#[verifier::external_body]
fn md5_compute(data: &[u8]) -> (r: [u8; 16])
    ensures
        r@ == md5_digest(data@),
{
    md5::compute(data).0
}

/// Whether `c` is a lower-case hexadecimal digit.
pub open spec fn is_lower_hex(c: char) -> bool {
    ('0' <= c <= '9') || ('a' <= c <= 'f')
}

/// Whether `t` has the form of a version 4 identifier in hyphenated text:
/// 36 characters, hyphens at 8, 13, 18 and 23, the version digit `4` at 14,
/// a variant digit `8`, `9`, `a` or `b` at 19, lower-case hexadecimal
/// digits elsewhere.
pub open spec fn uuid_v4_text_form(t: Seq<char>) -> bool {
    &&& t.len() == 36
    &&& forall|i: int| 0 <= i < 36 ==> (#[trigger] t[i] == '-' <==> (i == 8 || i == 13 || i == 18 || i == 23))
    &&& forall|i: int| 0 <= i < 36 && i != 8 && i != 13 && i != 18 && i != 23 ==> is_lower_hex(#[trigger] t[i])
    &&& t[14] == '4'
    &&& (t[19] == '8' || t[19] == '9' || t[19] == 'a' || t[19] == 'b')
}

/// `uuid::Uuid::new_v4` in its hyphenated text form: random apart from the
/// version and variant bits, which `new_v4` sets, written as `Display`
/// writes it (lower-case, hyphenated; see [`uuid_v4_text_form`]).
#[verifier::external_body]
fn new_uuid_v4_text() -> (r: String)
    ensures
        uuid_v4_text_form(r@),
{
    uuid::Uuid::new_v4().to_string()
}

/// The lower-case hexadecimal digit of `n` (below 16).
pub open spec fn hex_char(n: u8) -> char {
    if n < 10 {
        ((48 + n) as u8) as char
    } else {
        ((87 + n) as u8) as char
    }
}

/// The lower-case hexadecimal text of `b`, two digits per byte, as the
/// digest's `LowerHex` form writes it.
pub open spec fn lower_hex(b: Seq<u8>) -> Seq<char>
    decreases b.len(),
{
    if b.len() == 0 {
        Seq::empty()
    } else {
        lower_hex(b.drop_last()) + seq![hex_char(b.last() / 16), hex_char(b.last() % 16)]
    }
}

fn hex_digit(n: u8) -> (r: char)
    requires
        n < 16,
    ensures
        r == hex_char(n),
{
    if n < 10 {
        (48 + n) as char
    } else {
        (87 + n) as char
    }
}

/// The lower-case hexadecimal text of digest `d` (see [`lower_hex`]).
pub fn digest_hex(d: &[u8; 16]) -> (r: String)
    ensures
        r@ == lower_hex(d@),
{
    let mut out: Vec<char> = Vec::new();
    let mut i: usize = 0;
    while i < 16
        invariant
            i <= 16,
            d@.len() == 16,
            out@ == lower_hex(d@.take(i as int)),
        decreases 16 - i,
    {
        let b = d[i];
        assert(d@.take(i + 1).drop_last() =~= d@.take(i as int));
        out.push(hex_digit(b / 16));
        out.push(hex_digit(b % 16));
        i = i + 1;
        assert(out@ =~= lower_hex(d@.take(i as int)));
    }
    assert(d@.take(16) =~= d@);
    string_from_chars(out)
}

/// The content hash of a module: the hexadecimal text of its MD5 digest.
pub fn module_hash(module_bytes: &[u8]) -> (r: String)
    ensures
        r@ == lower_hex(md5_digest(module_bytes@)),
{
    let d = md5_compute(module_bytes);
    digest_hex(&d)
}

/// The content of a module handle.
pub struct WasmModuleView {
    pub module_id: Seq<char>,
    pub module_name: Seq<char>,
    pub module_size: u64,
    pub module_hash: Seq<char>,
    pub compilation_time_ms: u64,
    pub exported_functions: Seq<Seq<char>>,
    pub memory_usage: u64,
    pub module_bytes: Seq<u8>,
}

/// The content of module handle `h`.
pub open spec fn module_view(h: WasmModuleHandle) -> WasmModuleView {
    WasmModuleView {
        module_id: h.module_id@,
        module_name: h.module_name@,
        module_size: h.module_size,
        module_hash: h.module_hash@,
        compilation_time_ms: h.compilation_time_ms,
        exported_functions: texts_of(h.exported_functions@),
        memory_usage: h.memory_usage,
        module_bytes: h.module_bytes@,
    }
}

/// A copy of module handle `h`.
pub fn duplicate_module(h: &WasmModuleHandle) -> (r: WasmModuleHandle)
    ensures
        module_view(r) == module_view(*h),
{
    WasmModuleHandle {
        module_id: h.module_id.clone(),
        module_name: h.module_name.clone(),
        module_size: h.module_size,
        module_hash: h.module_hash.clone(),
        compilation_time_ms: h.compilation_time_ms,
        exported_functions: copy_strings(&h.exported_functions),
        memory_usage: h.memory_usage,
        module_bytes: bytes_to_vec(h.module_bytes.as_slice()),
    }
}

/// The modules of `v` by content hash.
pub open spec fn modules_by_hash(v: Seq<WasmModuleHandle>) -> Map<Seq<char>, WasmModuleView>
    decreases v.len(),
{
    if v.len() == 0 {
        Map::empty()
    } else {
        modules_by_hash(v.drop_last()).insert(v.last().module_hash@, module_view(v.last()))
    }
}

/// The list holds no two modules of one hash.
pub open spec fn hashes_distinct(v: Seq<WasmModuleHandle>) -> bool {
    forall|i: int, j: int| 0 <= i < j < v.len() ==> v[i].module_hash@ != v[j].module_hash@
}

proof fn lemma_modules_by_hash_contains(v: Seq<WasmModuleHandle>, k: Seq<char>)
    ensures
        modules_by_hash(v).contains_key(k) <==> exists|i: int| 0 <= i < v.len() && v[i].module_hash@ == k,
    decreases v.len(),
{
    if v.len() > 0 {
        lemma_modules_by_hash_contains(v.drop_last(), k);
        if modules_by_hash(v).contains_key(k) && v.last().module_hash@ != k {
            let i = choose|i: int| 0 <= i < v.drop_last().len() && v.drop_last()[i].module_hash@ == k;
            assert(v[i] == v.drop_last()[i]);
        }
        if exists|i: int| 0 <= i < v.len() && v[i].module_hash@ == k {
            let i = choose|i: int| 0 <= i < v.len() && v[i].module_hash@ == k;
            if i < v.len() - 1 {
                assert(v.drop_last()[i] == v[i]);
            }
        }
    }
}

proof fn lemma_modules_by_hash_value(v: Seq<WasmModuleHandle>, i: int)
    requires
        hashes_distinct(v),
        0 <= i < v.len(),
    ensures
        modules_by_hash(v).contains_key(v[i].module_hash@),
        modules_by_hash(v)[v[i].module_hash@] == module_view(v[i]),
    decreases v.len(),
{
    if i < v.len() - 1 {
        assert(v.drop_last()[i] == v[i]);
        assert(hashes_distinct(v.drop_last())) by {
            assert forall|a: int, b: int| 0 <= a < b < v.drop_last().len() implies v.drop_last()[a].module_hash@
                != v.drop_last()[b].module_hash@ by {
                assert(v.drop_last()[a] == v[a] && v.drop_last()[b] == v[b]);
            }
        }
        lemma_modules_by_hash_value(v.drop_last(), i);
        assert(v.last().module_hash@ != v[i].module_hash@);
    }
}

proof fn lemma_modules_by_hash_update(v: Seq<WasmModuleHandle>, i: int, x: WasmModuleHandle)
    requires
        hashes_distinct(v),
        0 <= i < v.len(),
        v[i].module_hash@ == x.module_hash@,
    ensures
        modules_by_hash(v.update(i, x)) == modules_by_hash(v).insert(x.module_hash@, module_view(x)),
        hashes_distinct(v.update(i, x)),
    decreases v.len(),
{
    let u = v.update(i, x);
    assert(hashes_distinct(u)) by {
        assert forall|a: int, b: int| 0 <= a < b < u.len() implies u[a].module_hash@ != u[b].module_hash@ by {
            assert(u[a].module_hash@ == v[a].module_hash@);
            assert(u[b].module_hash@ == v[b].module_hash@);
        }
    }
    if i == v.len() - 1 {
        assert(u.drop_last() =~= v.drop_last());
        assert(!modules_by_hash(v.drop_last()).contains_key(x.module_hash@)) by {
            lemma_modules_by_hash_contains(v.drop_last(), x.module_hash@);
            if exists|j: int| 0 <= j < v.drop_last().len() && v.drop_last()[j].module_hash@ == x.module_hash@ {
                let j = choose|j: int| 0 <= j < v.drop_last().len() && v.drop_last()[j].module_hash@ == x.module_hash@;
                assert(v[j] == v.drop_last()[j]);
            }
        }
        assert(modules_by_hash(u) =~= modules_by_hash(v).insert(x.module_hash@, module_view(x)));
    } else {
        assert(hashes_distinct(v.drop_last())) by {
            assert forall|a: int, b: int| 0 <= a < b < v.drop_last().len() implies v.drop_last()[a].module_hash@
                != v.drop_last()[b].module_hash@ by {
                assert(v.drop_last()[a] == v[a] && v.drop_last()[b] == v[b]);
            }
        }
        lemma_modules_by_hash_update(v.drop_last(), i, x);
        assert(u.drop_last() =~= v.drop_last().update(i, x));
        assert(u.last() == v.last());
        assert(v.last().module_hash@ != x.module_hash@);
        assert(modules_by_hash(u) =~= modules_by_hash(v).insert(x.module_hash@, module_view(x)));
    }
}

/// The modules compiled so far, each content hash once.
pub struct WasmModuleCache {
    pub modules: Vec<WasmModuleHandle>,
}

/// What loading a module found.
#[derive(Debug)]
pub enum ModuleLookup {
    /// The module was compiled before: its handle.
    Cached(WasmModuleHandle),
    /// The module is new; it is compiled and then stored under its hash.
    Compile { module_hash: String },
}

/// The error message of a module of `size` bytes over the limit `max`.
pub open spec fn too_large_text(size: nat, max: nat) -> Seq<char> {
    "WASM module size "@ + decimal(size) + " exceeds maximum "@ + decimal(max)
}

/// The handle a module gets when it is compiled: its bytes, size and hash,
/// the identifier and time given, the fixed name and exports, and the heap
/// limit as its memory use.
pub open spec fn compiled_view(
    config: WasmConfig,
    module_bytes: Seq<u8>,
    module_hash: Seq<char>,
    module_id: Seq<char>,
    now_ms: u64,
) -> WasmModuleView {
    WasmModuleView {
        module_id,
        module_name: "user_module"@,
        module_size: module_bytes.len() as u64,
        module_hash,
        compilation_time_ms: now_ms,
        exported_functions: seq!["main"@, "_start"@],
        memory_usage: config.execution_config.max_heap_size as u64,
        module_bytes,
    }
}

impl WasmModuleCache {
    /// The modules by content hash.
    pub open spec fn spec_modules(&self) -> Map<Seq<char>, WasmModuleView> {
        modules_by_hash(self.modules@)
    }

    pub open spec fn wf(&self) -> bool {
        hashes_distinct(self.modules@)
    }

    /// An empty cache.
    pub fn new() -> (r: Self)
        ensures
            r.wf(),
            r.spec_modules() == Map::<Seq<char>, WasmModuleView>::empty(),
    {
        WasmModuleCache { modules: Vec::new() }
    }

    /// A copy of the module cached under content hash `hash`, if any.
    pub fn lookup_hash(&self, hash: &str) -> (r: Option<WasmModuleHandle>)
        requires
            self.wf(),
        ensures
            match r {
                Some(x) => self.spec_modules().contains_key(hash@) && module_view(x) == self.spec_modules()[hash@],
                None => !self.spec_modules().contains_key(hash@),
            },
    {
        let mut i: usize = 0;
        proof {
            lemma_modules_by_hash_contains(self.modules@, hash@);
        }
        while i < self.modules.len()
            invariant
                i <= self.modules@.len(),
                self.wf(),
                forall|j: int| 0 <= j < i ==> self.modules@[j].module_hash@ != hash@,
            decreases self.modules.len() - i,
        {
            if str_eq(self.modules[i].module_hash.as_str(), hash) {
                proof {
                    lemma_modules_by_hash_value(self.modules@, i as int);
                }
                return Some(duplicate_module(&self.modules[i]));
            }
            i = i + 1;
        }
        None
    }

    /// The first step of loading `module_bytes`: a module over the size
    /// limit of `config` is refused with a message; a module whose content
    /// hash is cached gives the cached handle; a new one is to be compiled
    /// under its hash.
    pub fn begin_load(&self, config: &WasmConfig, module_bytes: &[u8]) -> (r: Result<ModuleLookup, String>)
        requires
            self.wf(),
        ensures
            module_bytes@.len() > (config.max_module_size_bytes as usize) ==> (r matches Err(m) && m@ == too_large_text(
                module_bytes@.len(),
                config.max_module_size_bytes as nat,
            )),
            module_bytes@.len() <= (config.max_module_size_bytes as usize) ==> ({
                let h = lower_hex(md5_digest(module_bytes@));
                if self.spec_modules().contains_key(h) {
                    r matches Ok(ModuleLookup::Cached(x)) && module_view(x) == self.spec_modules()[h]
                } else {
                    r matches Ok(ModuleLookup::Compile { module_hash }) && module_hash@ == h
                }
            }),
    {
        if module_bytes.len() > config.max_module_size_bytes as usize {
            let size = decimal_string(module_bytes.len() as u64);
            let max = decimal_string(config.max_module_size_bytes);
            return Err(String::from_str("WASM module size ").concat(size.as_str()).concat(" exceeds maximum ").concat(
                max.as_str(),
            ));
        }
        let hash = module_hash(module_bytes);
        match self.lookup_hash(hash.as_str()) {
            Some(h) => { return Ok(ModuleLookup::Cached(h)); },
            None => {},
        }
        Ok(ModuleLookup::Compile { module_hash: hash })
    }

    /// Stores the module compiled from `module_bytes` under `module_hash`
    /// with identifier `module_id` at `now_ms` (see [`compiled_view`]),
    /// replacing what the cache held under that hash; returns its handle.
    pub fn store_compiled(
        &mut self,
        config: &WasmConfig,
        module_bytes: &[u8],
        module_hash: String,
        module_id: String,
        now_ms: u64,
    ) -> (r: WasmModuleHandle)
        requires
            old(self).wf(),
        ensures
            final(self).wf(),
            module_view(r) == compiled_view(*config, module_bytes@, module_hash@, module_id@, now_ms),
            final(self).spec_modules() == old(self).spec_modules().insert(module_hash@, module_view(r)),
    {
        let mut names: Vec<String> = Vec::new();
        names.push(String::from_str("main"));
        names.push(String::from_str("_start"));
        let bytes = bytes_to_vec(module_bytes);
        let ghost mh = module_hash@;
        let ghost mi = module_id@;
        let h = WasmModuleHandle {
            module_id,
            module_name: String::from_str("user_module"),
            module_size: module_bytes.len() as u64,
            module_hash,
            compilation_time_ms: now_ms,
            exported_functions: names,
            memory_usage: config.execution_config.max_heap_size as u64,
            module_bytes: bytes,
        };
        assert(texts_of(h.exported_functions@) =~= seq!["main"@, "_start"@]);
        let stored = duplicate_module(&h);
        let ghost v0 = self.modules@;
        let mut i: usize = 0;
        while i < self.modules.len()
            invariant
                i <= self.modules@.len(),
                self.modules@ == v0,
                v0 == old(self).modules@,
                hashes_distinct(v0),
                module_view(h) == compiled_view(*config, module_bytes@, h.module_hash@, h.module_id@, now_ms),
                module_view(stored) == module_view(h),
                h.module_hash@ == mh,
                h.module_id@ == mi,
                mh == module_hash@,
                mi == module_id@,
                forall|j: int| 0 <= j < i ==> v0[j].module_hash@ != h.module_hash@,
            decreases self.modules.len() - i,
        {
            if str_eq(self.modules[i].module_hash.as_str(), h.module_hash.as_str()) {
                self.modules.set(i, stored);
                proof {
                    lemma_modules_by_hash_update(v0, i as int, stored);
                }
                return h;
            }
            i = i + 1;
        }
        self.modules.push(stored);
        proof {
            assert(self.modules@.drop_last() =~= v0);
            assert forall|a: int, b: int| 0 <= a < b < self.modules@.len() implies self.modules@[a].module_hash@
                != self.modules@[b].module_hash@ by {
                if b == self.modules@.len() - 1 {
                    assert(self.modules@[a] == v0[a]);
                } else {
                    assert(self.modules@[a] == v0[a] && self.modules@[b] == v0[b]);
                }
            }
        }
        h
    }

    /// Loads `module_bytes` at `now_ms`: the cached handle of a module
    /// compiled before, else a new handle with a fresh random identifier,
    /// which is cached (see [`WasmModuleCache::begin_load`] and
    /// [`WasmModuleCache::store_compiled`]).
    pub fn load_wasm_module(&mut self, config: &WasmConfig, module_bytes: &[u8], now_ms: u64) -> (r: Result<
        WasmModuleHandle,
        String,
    >)
        requires
            old(self).wf(),
        ensures
            final(self).wf(),
            module_bytes@.len() > (config.max_module_size_bytes as usize) ==> (r matches Err(m) && m@ == too_large_text(
                module_bytes@.len(),
                config.max_module_size_bytes as nat,
            )) && final(self).spec_modules() == old(self).spec_modules(),
            module_bytes@.len() <= (config.max_module_size_bytes as usize) ==> ({
                let h = lower_hex(md5_digest(module_bytes@));
                if old(self).spec_modules().contains_key(h) {
                    r matches Ok(x) && module_view(x) == old(self).spec_modules()[h] && final(self).spec_modules()
                        == old(self).spec_modules()
                } else {
                    r matches Ok(x) && uuid_v4_text_form(x.module_id@) && module_view(x) == compiled_view(
                        *config,
                        module_bytes@,
                        h,
                        x.module_id@,
                        now_ms,
                    ) && final(self).spec_modules() == old(self).spec_modules().insert(h, module_view(x))
                }
            }),
    {
        match self.begin_load(config, module_bytes) {
            Err(m) => Err(m),
            Ok(ModuleLookup::Cached(h)) => Ok(h),
            Ok(ModuleLookup::Compile { module_hash }) => {
                let id = new_uuid_v4_text();
                Ok(self.store_compiled(config, module_bytes, module_hash, id, now_ms))
            },
        }
    }
}

} // verus!

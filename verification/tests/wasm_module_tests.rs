use spear_exec::runtime_config::WasmConfig;
use spear_exec::wasm_modules::{digest_hex, module_hash, ModuleLookup, WasmModuleCache};

#[test]
fn module_hash_is_md5_hex() {
    assert_eq!(module_hash(b"hello"), "5d41402abc4b2a76b9719d911017c592");
    assert_eq!(module_hash(b""), "d41d8cd98f00b204e9800998ecf8427e");
    let d: [u8; 16] = [0x00, 0x01, 0x0f, 0x10, 0x7f, 0x80, 0xab, 0xff, 0, 0, 0, 0, 0, 0, 0, 9];
    assert_eq!(digest_hex(&d), "00010f107f80abff0000000000000009");
}

#[test]
fn modules_are_cached_by_content() {
    let config = WasmConfig::default();
    let mut cache = WasmModuleCache::new();
    let bytes = b"\0asm\x01\0\0\0".to_vec();
    let first = cache.load_wasm_module(&config, &bytes, 1000).unwrap();
    assert_eq!(first.module_id.len(), 36);
    let id: Vec<char> = first.module_id.chars().collect();
    for (i, c) in id.iter().enumerate() {
        if i == 8 || i == 13 || i == 18 || i == 23 {
            assert_eq!(*c, '-');
        } else {
            assert!(c.is_ascii_hexdigit() && !c.is_ascii_uppercase());
        }
    }
    assert_eq!(id[14], '4');
    assert!(matches!(id[19], '8' | '9' | 'a' | 'b'));
    assert_eq!(first.module_name, "user_module");
    assert_eq!(first.module_size, 8);
    assert_eq!(first.module_hash, module_hash(&bytes));
    assert_eq!(first.compilation_time_ms, 1000);
    assert_eq!(first.exported_functions, vec!["main".to_string(), "_start".to_string()]);
    assert_eq!(first.memory_usage, config.execution_config.max_heap_size as u64);
    assert_eq!(first.module_bytes, bytes);

    let again = cache.load_wasm_module(&config, &bytes, 2000).unwrap();
    assert_eq!(again.module_id, first.module_id);
    assert_eq!(again.compilation_time_ms, 1000);

    let other = cache.load_wasm_module(&config, b"other", 3000).unwrap();
    assert_ne!(other.module_id, first.module_id);
    assert!(matches!(cache.begin_load(&config, b"other"), Ok(ModuleLookup::Cached(_))));
    assert!(matches!(cache.begin_load(&config, b"new"), Ok(ModuleLookup::Compile { .. })));
    assert!(cache.lookup_hash(&module_hash(b"other")).is_some());
    assert!(cache.lookup_hash("0000").is_none());
}

#[test]
fn oversized_modules_are_refused() {
    let mut config = WasmConfig::default();
    config.max_module_size_bytes = 4;
    let mut cache = WasmModuleCache::new();
    assert_eq!(
        cache.load_wasm_module(&config, b"12345", 0).unwrap_err(),
        "WASM module size 5 exceeds maximum 4"
    );
    assert!(cache.load_wasm_module(&config, b"1234", 0).is_ok());
}

#[test]
fn storing_replaces_the_entry_of_a_hash() {
    let config = WasmConfig::default();
    let mut cache = WasmModuleCache::new();
    let h = module_hash(b"x");
    cache.store_compiled(&config, b"x", h.clone(), "id-1".to_string(), 5);
    cache.store_compiled(&config, b"x", h.clone(), "id-2".to_string(), 6);
    assert_eq!(cache.modules.len(), 1);
    assert_eq!(cache.lookup_hash(&h).unwrap().module_id, "id-2");
}

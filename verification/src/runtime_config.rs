//! Default settings of the process and WebAssembly runtimes and of the task
//! execution manager, and the records the WebAssembly runtime keeps of its
//! modules and instances.
use vstd::prelude::*;
use std::collections::HashMap;

verus! {

/// Process isolation settings.
#[derive(Debug, Clone)]
pub struct ProcessIsolationConfig {
    pub use_process_groups: bool,
    pub use_namespaces: bool,
    pub use_chroot: bool,
    pub chroot_directory: Option<String>,
    pub use_resource_limits: bool,
}

/// Process monitoring settings.
#[derive(Debug, Clone, PartialEq, Eq, Structural)]
pub struct ProcessMonitoringConfig {
    pub monitor_cpu: bool,
    pub monitor_memory: bool,
    pub monitor_file_descriptors: bool,
    pub monitoring_interval_ms: u64,
}

/// Process security settings.
#[derive(Debug, Clone)]
pub struct ProcessSecurityConfig {
    pub run_as_user: Option<String>,
    pub run_as_group: Option<String>,
    pub drop_privileges: bool,
    pub allowed_syscalls: Vec<String>,
    pub env_whitelist: Vec<String>,
}

/// Settings of the process runtime.
#[derive(Debug, Clone)]
pub struct ProcessConfig {
    pub working_directory: String,
    pub default_executable: String,
    pub isolation_config: ProcessIsolationConfig,
    pub monitoring_config: ProcessMonitoringConfig,
    pub security_config: ProcessSecurityConfig,
}

/// The texts of a list of strings.
pub open spec fn texts(v: Seq<String>) -> Seq<Seq<char>> {
    v.map_values(|s: String| s@)
}

impl Default for ProcessConfig {
    /// Work in `/tmp/spearlet` with `/bin/sh`; process groups and resource
    /// limits on, no namespaces or chroot; CPU, memory and descriptors
    /// monitored every second; privileges dropped, no system call list, and
    /// only `PATH`, `HOME` and `USER` passed through.
    fn default() -> (r: Self)
        ensures
            r.working_directory@ == "/tmp/spearlet"@,
            r.default_executable@ == "/bin/sh"@,
            r.isolation_config.use_process_groups,
            !r.isolation_config.use_namespaces,
            !r.isolation_config.use_chroot,
            r.isolation_config.chroot_directory is None,
            r.isolation_config.use_resource_limits,
            r.monitoring_config == (ProcessMonitoringConfig {
                monitor_cpu: true,
                monitor_memory: true,
                monitor_file_descriptors: true,
                monitoring_interval_ms: 1000,
            }),
            r.security_config.run_as_user is None,
            r.security_config.run_as_group is None,
            r.security_config.drop_privileges,
            r.security_config.allowed_syscalls@.len() == 0,
            texts(r.security_config.env_whitelist@) == seq!["PATH"@, "HOME"@, "USER"@],
    {
        let mut env: Vec<String> = Vec::new();
        env.push(String::from_str("PATH"));
        env.push(String::from_str("HOME"));
        env.push(String::from_str("USER"));
        let r = ProcessConfig {
            working_directory: String::from_str("/tmp/spearlet"),
            default_executable: String::from_str("/bin/sh"),
            isolation_config: ProcessIsolationConfig {
                use_process_groups: true,
                use_namespaces: false,
                use_chroot: false,
                chroot_directory: None,
                use_resource_limits: true,
            },
            monitoring_config: ProcessMonitoringConfig {
                monitor_cpu: true,
                monitor_memory: true,
                monitor_file_descriptors: true,
                monitoring_interval_ms: 1000,
            },
            security_config: ProcessSecurityConfig {
                run_as_user: None,
                run_as_group: None,
                drop_privileges: true,
                allowed_syscalls: Vec::new(),
                env_whitelist: env,
            },
        };
        assert(texts(r.security_config.env_whitelist@) =~= seq!["PATH"@, "HOME"@, "USER"@]);
        r
    }
}

/// WebAssembly execution settings. `wasi_env_vars` maps variable names to
/// values.
#[derive(Debug, Clone)]
pub struct WasmExecutionConfig {
    pub max_stack_size: u32,
    pub max_heap_size: u32,
    pub enable_wasi: bool,
    pub wasi_allowed_dirs: Vec<String>,
    pub wasi_env_vars: HashMap<String, String>,
    pub enable_threads: bool,
    pub max_threads: u32,
}

/// WebAssembly security settings.
#[derive(Debug, Clone)]
pub struct WasmSecurityConfig {
    pub enable_sandbox: bool,
    pub allowed_host_functions: Vec<String>,
    pub max_execution_time_ms: u64,
    pub max_memory_allocation: u64,
    pub enable_fuel: bool,
    pub fuel_limit: u64,
}

/// WebAssembly compilation settings.
#[derive(Debug, Clone, PartialEq, Eq, Structural)]
pub struct WasmOptimizationConfig {
    pub enable_jit: bool,
    pub optimization_level: u8,
    pub enable_caching: bool,
    pub cache_ttl_seconds: u64,
    pub enable_parallel_compilation: bool,
}

/// Settings of the WebAssembly runtime.
#[derive(Debug, Clone)]
pub struct WasmConfig {
    pub cache_directory: String,
    pub max_module_size_bytes: u64,
    pub execution_config: WasmExecutionConfig,
    pub security_config: WasmSecurityConfig,
    pub optimization_config: WasmOptimizationConfig,
}

impl Default for WasmConfig {
    /// Cache in `/tmp/spearlet/wasm_cache`, modules up to 100 MiB; 1 MiB
    /// stack, 64 MiB heap, WASI on with `/tmp` only, one thread; sandbox on,
    /// no host functions listed, 30 s per call, 128 MiB of memory, fuel on
    /// with a million units; JIT at level 2 with caching for an hour and
    /// parallel compilation.
    fn default() -> (r: Self)
        ensures
            r.cache_directory@ == "/tmp/spearlet/wasm_cache"@,
            r.max_module_size_bytes == 100 * 1024 * 1024,
            r.execution_config.max_stack_size == 1024 * 1024,
            r.execution_config.max_heap_size == 64 * 1024 * 1024,
            r.execution_config.enable_wasi,
            texts(r.execution_config.wasi_allowed_dirs@) == seq!["/tmp"@],
            r.execution_config.wasi_env_vars@.len() == 0,
            !r.execution_config.enable_threads,
            r.execution_config.max_threads == 1,
            r.security_config.enable_sandbox,
            r.security_config.allowed_host_functions@.len() == 0,
            r.security_config.max_execution_time_ms == 30000,
            r.security_config.max_memory_allocation == 128 * 1024 * 1024,
            r.security_config.enable_fuel,
            r.security_config.fuel_limit == 1_000_000,
            r.optimization_config == (WasmOptimizationConfig {
                enable_jit: true,
                optimization_level: 2,
                enable_caching: true,
                cache_ttl_seconds: 3600,
                enable_parallel_compilation: true,
            }),
    {
        let mut dirs: Vec<String> = Vec::new();
        dirs.push(String::from_str("/tmp"));
        let r = WasmConfig {
            cache_directory: String::from_str("/tmp/spearlet/wasm_cache"),
            max_module_size_bytes: 100 * 1024 * 1024,
            execution_config: WasmExecutionConfig {
                max_stack_size: 1024 * 1024,
                max_heap_size: 64 * 1024 * 1024,
                enable_wasi: true,
                wasi_allowed_dirs: dirs,
                wasi_env_vars: HashMap::new(),
                enable_threads: false,
                max_threads: 1,
            },
            security_config: WasmSecurityConfig {
                enable_sandbox: true,
                allowed_host_functions: Vec::new(),
                max_execution_time_ms: 30000,
                max_memory_allocation: 128 * 1024 * 1024,
                enable_fuel: true,
                fuel_limit: 1_000_000,
            },
            optimization_config: WasmOptimizationConfig {
                enable_jit: true,
                optimization_level: 2,
                enable_caching: true,
                cache_ttl_seconds: 3600,
                enable_parallel_compilation: true,
            },
        };
        assert(texts(r.execution_config.wasi_allowed_dirs@) =~= seq!["/tmp"@]);
        r
    }
}

/// A compiled WebAssembly module. `compilation_time_ms` is milliseconds
/// since the Unix epoch.
#[derive(Debug, Clone)]
pub struct WasmModuleHandle {
    pub module_id: String,
    pub module_name: String,
    pub module_size: u64,
    pub module_hash: String,
    pub compilation_time_ms: u64,
    pub exported_functions: Vec<String>,
    pub memory_usage: u64,
    pub module_bytes: Vec<u8>,
}

/// The state of a WebAssembly instance. `last_execution_time_ms` is
/// milliseconds since the Unix epoch.
#[derive(Debug, Clone)]
pub struct WasmInstanceState {
    pub initialized: bool,
    pub memory_usage: u64,
    pub fuel_remaining: u64,
    pub last_execution_time_ms: Option<u64>,
    pub is_running: bool,
    pub current_function: Option<String>,
}

/// Limits and intervals of the task execution manager.
#[derive(Debug, Clone, PartialEq, Eq, Structural)]
pub struct TaskExecutionManagerConfig {
    pub max_concurrent_executions: usize,
    pub max_artifacts: usize,
    pub max_tasks_per_artifact: usize,
    pub max_instances_per_task: usize,
    pub instance_creation_timeout_ms: u64,
    pub health_check_interval_ms: u64,
    pub metrics_collection_interval_ms: u64,
    pub instance_heartbeat_interval_ms: u64,
    pub cleanup_interval_ms: u64,
    pub artifact_idle_timeout_ms: u64,
    pub task_idle_timeout_ms: u64,
    pub instance_idle_timeout_ms: u64,
}

impl Default for TaskExecutionManagerConfig {
    /// 1000 executions, 100 artifacts, 10 tasks each, 50 instances each;
    /// 30 s to create an instance; health every 10 s, metrics every 5 s,
    /// heartbeat every 30 s, cleanup every minute; idle artifacts go after
    /// 5 minutes, tasks after 3, instances after 2.
    fn default() -> (r: Self)
        ensures
            r == (TaskExecutionManagerConfig {
                max_concurrent_executions: 1000,
                max_artifacts: 100,
                max_tasks_per_artifact: 10,
                max_instances_per_task: 50,
                instance_creation_timeout_ms: 30000,
                health_check_interval_ms: 10000,
                metrics_collection_interval_ms: 5000,
                instance_heartbeat_interval_ms: 30000,
                cleanup_interval_ms: 60000,
                artifact_idle_timeout_ms: 300000,
                task_idle_timeout_ms: 180000,
                instance_idle_timeout_ms: 120000,
            }),
    {
        TaskExecutionManagerConfig {
            max_concurrent_executions: 1000,
            max_artifacts: 100,
            max_tasks_per_artifact: 10,
            max_instances_per_task: 50,
            instance_creation_timeout_ms: 30000,
            health_check_interval_ms: 10000,
            metrics_collection_interval_ms: 5000,
            instance_heartbeat_interval_ms: 30000,
            cleanup_interval_ms: 60000,
            artifact_idle_timeout_ms: 300000,
            task_idle_timeout_ms: 180000,
            instance_idle_timeout_ms: 120000,
        }
    }
}

} // verus!

//! The runtime manager: one runtime per runtime kind, registered once.
use vstd::prelude::*;
use crate::runtime::RuntimeType;
use crate::execution_error::ExecutionError;

verus! {

/// Whether some entry of `s` is for runtime kind `t`.
pub open spec fn has_type<R>(s: Seq<(RuntimeType, R)>, t: RuntimeType) -> bool {
    exists|i: int| 0 <= i < s.len() && #[trigger] s[i].0 == t
}

/// Whether no two entries of `s` are for the same runtime kind.
pub open spec fn types_distinct<R>(s: Seq<(RuntimeType, R)>) -> bool {
    forall|i: int, j: int| 0 <= i < j < s.len() ==> #[trigger] s[i].0 != #[trigger] s[j].0
}

/// The runtime kinds of the entries of `s`, in order.
pub open spec fn types_of<R>(s: Seq<(RuntimeType, R)>) -> Seq<RuntimeType> {
    s.map_values(|e: (RuntimeType, R)| e.0)
}

/// How a runtime kind is written in messages (its `Debug` form).
pub open spec fn runtime_debug_name(t: RuntimeType) -> Seq<char> {
    match t {
        RuntimeType::Process => "Process"@,
        RuntimeType::Wasm => "Wasm"@,
        RuntimeType::Kubernetes => "Kubernetes"@,
    }
}

/// The message of a refused second registration of kind `t`.
pub open spec fn already_registered_text(t: RuntimeType) -> Seq<char> {
    "Runtime "@ + runtime_debug_name(t) + " is already registered"@
}

/// Whether `e` is the error for a refused second registration of kind `t`.
pub open spec fn is_already_registered(e: ExecutionError, t: RuntimeType) -> bool {
    e matches ExecutionError::InvalidConfiguration { message } && message@ == already_registered_text(t)
}

/// How registering a list of runtimes ends, entry by entry from the front
/// of `items` on top of the registered entries `s`: the entries registered
/// in the end, and `None` when every item was registered, or the index of
/// the item that stopped it (a failed creation, or a kind registered
/// already).
pub open spec fn registration_outcome<R>(
    s: Seq<(RuntimeType, R)>,
    items: Seq<Result<(RuntimeType, R), ExecutionError>>,
    start: int,
) -> (Seq<(RuntimeType, R)>, Option<int>)
    decreases items.len() - start,
{
    if start < 0 || start >= items.len() {
        (s, None)
    } else {
        match items[start] {
            Err(_) => (s, Some(start)),
            Ok((t, r)) => if has_type(s, t) {
                (s, Some(start))
            } else {
                registration_outcome(s.push((t, r)), items, start + 1)
            },
        }
    }
}

/// Holds one runtime per runtime kind.
pub struct RuntimeManager<R> {
    runtimes: Vec<(RuntimeType, R)>,
}

impl<R> View for RuntimeManager<R> {
    type V = Seq<(RuntimeType, R)>;

    /// The registered runtimes, in the order of registration.
    closed spec fn view(&self) -> Seq<(RuntimeType, R)> {
        self.runtimes@
    }
}

/// The `Debug` form of runtime kind `t`.
fn runtime_debug_str(t: RuntimeType) -> (r: &'static str)
    ensures
        r@ == runtime_debug_name(t),
{
    match t {
        RuntimeType::Process => "Process",
        RuntimeType::Wasm => "Wasm",
        RuntimeType::Kubernetes => "Kubernetes",
    }
}

impl<R> RuntimeManager<R> {
    /// A manager with no runtime.
    pub fn new() -> (m: Self)
        ensures
            m@ == Seq::<(RuntimeType, R)>::empty(),
            types_distinct(m@),
    {
        RuntimeManager { runtimes: Vec::new() }
    }

    /// Registers `runtime` for kind `runtime_type`. A kind that has a
    /// runtime already is refused with an invalid-configuration error, and
    /// the manager is left as it was.
    pub fn register_runtime(&mut self, runtime_type: RuntimeType, runtime: R) -> (r: Result<(), ExecutionError>)
        requires
            types_distinct(old(self)@),
        ensures
            types_distinct(final(self)@),
            r is Ok <==> !has_type(old(self)@, runtime_type),
            r is Ok ==> final(self)@ == old(self)@.push((runtime_type, runtime)),
            r matches Err(e) ==> is_already_registered(e, runtime_type) && final(self)@ == old(self)@,
    {
        let mut i: usize = 0;
        while i < self.runtimes.len()
            invariant
                0 <= i <= self.runtimes@.len(),
                self.runtimes@ == old(self)@,
                types_distinct(old(self)@),
                forall|j: int| 0 <= j < i ==> self.runtimes@[j].0 != runtime_type,
            decreases self.runtimes@.len() - i,
        {
            if self.runtimes[i].0 == runtime_type {
                let message = String::from_str("Runtime ").concat(runtime_debug_str(runtime_type)).concat(
                    " is already registered",
                );
                assert(message@ =~= already_registered_text(runtime_type));
                return Err(ExecutionError::InvalidConfiguration { message });
            }
            i = i + 1;
        }
        self.runtimes.push((runtime_type, runtime));
        Ok(())
    }

    /// The runtime registered for kind `runtime_type`, if any.
    pub fn get_runtime(&self, runtime_type: &RuntimeType) -> (r: Option<&R>)
        ensures
            r is Some <==> has_type(self@, *runtime_type),
            r matches Some(v) ==> exists|i: int|
                0 <= i < self@.len() && #[trigger] self@[i].0 == *runtime_type && self@[i].1 == *v,
    {
        let mut i: usize = 0;
        while i < self.runtimes.len()
            invariant
                0 <= i <= self.runtimes@.len(),
                forall|j: int| 0 <= j < i ==> self.runtimes@[j].0 != *runtime_type,
            decreases self.runtimes@.len() - i,
        {
            if self.runtimes[i].0 == *runtime_type {
                assert(self@[i as int].0 == *runtime_type);
                return Some(&self.runtimes[i].1);
            }
            i = i + 1;
        }
        None
    }

    /// The kinds that have a runtime, in the order of registration.
    pub fn list_runtime_types(&self) -> (r: Vec<RuntimeType>)
        ensures
            r@ == types_of(self@),
    {
        let mut out: Vec<RuntimeType> = Vec::new();
        let mut i: usize = 0;
        while i < self.runtimes.len()
            invariant
                0 <= i <= self.runtimes@.len(),
                out@ == types_of(self.runtimes@.subrange(0, i as int)),
            decreases self.runtimes@.len() - i,
        {
            out.push(self.runtimes[i].0);
            i = i + 1;
            assert(types_of(self.runtimes@.subrange(0, i as int)) =~= out@);
        }
        assert(self.runtimes@.subrange(0, i as int) =~= self.runtimes@);
        out
    }

    /// Registers the runtimes that were created for a list of runtime
    /// settings, in order: each item is a created runtime with its kind, or
    /// the error its creation gave. The first failed creation, or the first
    /// kind that has a runtime already, stops it with that error; what was
    /// registered before stays (see [`registration_outcome`]).
    pub fn initialize_runtimes(&mut self, created: Vec<Result<(RuntimeType, R), ExecutionError>>) -> (r: Result<
        (),
        ExecutionError,
    >)
        requires
            types_distinct(old(self)@),
        ensures
            types_distinct(final(self)@),
            final(self)@ == registration_outcome(old(self)@, created@, 0).0,
            r is Ok <==> registration_outcome(old(self)@, created@, 0).1 is None,
            r matches Err(e) ==> ({
                let k = registration_outcome(old(self)@, created@, 0).1->0;
                match created@[k] {
                    Err(e0) => e == e0,
                    Ok((t, _)) => is_already_registered(e, t),
                }
            }),
    {
        let ghost items = created@;
        let mut rest = created;
        let ghost mut k: int = 0;
        while rest.len() > 0
            invariant
                items == created@,
                0 <= k <= items.len(),
                rest@ == items.subrange(k, items.len() as int),
                types_distinct(self@),
                registration_outcome(self@, items, k) == registration_outcome(old(self)@, items, 0),
            decreases rest@.len(),
        {
            let item = rest.remove(0);
            assert(item == items[k]);
            match item {
                Err(e) => {
                    return Err(e);
                },
                Ok((t, runtime)) => {
                    let res = self.register_runtime(t, runtime);
                    match res {
                        Err(e) => {
                            return Err(e);
                        },
                        Ok(()) => {},
                    }
                },
            }
            proof {
                k = k + 1;
            }
            assert(rest@ =~= items.subrange(k, items.len() as int));
        }
        Ok(())
    }
}

impl<R> Default for RuntimeManager<R> {
    /// A manager with no runtime.
    fn default() -> (m: Self)
        ensures
            m@ == Seq::<(RuntimeType, R)>::empty(),
    {
        Self::new()
    }
}

} // verus!

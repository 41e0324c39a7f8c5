//! The sandbox runtime embedding over the wasmi interpreter.
//!
//! The embedding loads a compiled guest module, validates its export
//! surface (`init`, `update` and a linear memory), reserves the
//! host-provided buffer region by growing the memory, and drives the guest
//! one call per cycle. Every wasmi call sits behind a trusted wrapper;
//! nothing the guest returns is trusted: the returned buffer offset is
//! validated against a snapshot of the guest's memory before a byte is
//! read, in `copy_frame_bytes`, which is verified.

use vstd::prelude::*;
use crate::error::FatalError;
use crate::pixel::PIXEL_BUFFER_SIZE;

verus! {

/// wasmi's execution engine.
#[verifier::external_type_specification]
#[verifier::external_body]
pub struct ExEngine(wasmi::Engine);

/// A compiled and validated WebAssembly module.
#[verifier::external_type_specification]
#[verifier::external_body]
pub struct ExModule(wasmi::Module);

/// The store owning all runtime state of instantiated modules.
#[verifier::external_type_specification]
#[verifier::external_body]
#[verifier::reject_recursive_types(T)]
pub struct ExStore<T>(wasmi::Store<T>);

/// Resolves a module's imports by name at instantiation.
#[verifier::external_type_specification]
#[verifier::external_body]
#[verifier::reject_recursive_types(T)]
pub struct ExLinker<T>(wasmi::Linker<T>);

/// An instantiated module.
#[verifier::external_type_specification]
#[verifier::external_body]
pub struct ExInstance(wasmi::Instance);

/// A guest linear memory.
#[verifier::external_type_specification]
#[verifier::external_body]
pub struct ExMemory(wasmi::Memory);

/// An exported function with its signature checked at lookup.
#[verifier::external_type_specification]
#[verifier::external_body]
#[verifier::reject_recursive_types(Params)]
#[verifier::reject_recursive_types(Results)]
pub struct ExTypedFunc<Params, Results>(wasmi::TypedFunc<Params, Results>);

/// wasmi's error type.
#[verifier::external_type_specification]
#[verifier::external_body]
pub struct ExWasmiError(wasmi::Error);

/// Relies on wasmi::Engine::default: creates an engine with the default
/// configuration.
#[verifier::external_body]
fn engine_new() -> wasmi::Engine {
    wasmi::Engine::default()
}

/// Relies on wasmi::Module::new: parses and validates the module bytes;
/// errors exactly on malformed or invalid bytecode.
#[verifier::external_body]
fn module_new(engine: &wasmi::Engine, wasm: &Vec<u8>) -> Result<wasmi::Module, wasmi::Error> {
    wasmi::Module::new(engine, wasm.as_slice())
}

/// Relies on wasmi::Store::new: creates an empty store for the engine.
#[verifier::external_body]
fn store_new(engine: &wasmi::Engine) -> wasmi::Store<()> {
    wasmi::Store::new(engine, ())
}

/// Relies on wasmi::Linker::new: creates a linker with no definitions; a
/// module that imports nothing instantiates against it.
#[verifier::external_body]
fn linker_new(engine: &wasmi::Engine) -> wasmi::Linker<()> {
    wasmi::Linker::new(engine)
}

/// Relies on wasmi::Linker::instantiate_and_start: instantiates the module,
/// runs its start function, and errors on unresolved imports, type
/// mismatches or a trapped start function.
#[verifier::external_body]
fn instantiate(
    linker: &wasmi::Linker<()>,
    store: &mut wasmi::Store<()>,
    module: &wasmi::Module,
) -> Result<wasmi::Instance, wasmi::Error> {
    linker.instantiate_and_start(store, module)
}

/// Relies on wasmi::Instance::get_typed_func: looks the export up by name
/// and checks its signature, erroring when either fails.
#[verifier::external_body]
fn get_init(
    instance: &wasmi::Instance,
    store: &wasmi::Store<()>,
) -> Result<wasmi::TypedFunc<(), ()>, wasmi::Error> {
    instance.get_typed_func::<(), ()>(store, "init")
}

/// Relies on wasmi::Instance::get_typed_func: looks the export up by name
/// and checks its signature, erroring when either fails.
#[verifier::external_body]
fn get_update(
    instance: &wasmi::Instance,
    store: &wasmi::Store<()>,
) -> Result<wasmi::TypedFunc<(u64, u64, u32), u32>, wasmi::Error> {
    instance.get_typed_func::<(u64, u64, u32), u32>(store, "update")
}

/// Relies on wasmi::Instance::get_memory: returns the exported linear
/// memory of that name, if the module exports one.
#[verifier::external_body]
fn get_memory(
    instance: &wasmi::Instance,
    store: &wasmi::Store<()>,
) -> Option<wasmi::Memory> {
    instance.get_memory(store, "memory")
}

/// Relies on wasmi::Memory::data_size: the current byte length of the
/// memory.
#[verifier::external_body]
fn mem_data_size(store: &wasmi::Store<()>, memory: &wasmi::Memory) -> usize {
    memory.data_size(store)
}

/// Relies on wasmi::Memory::grow: grows the memory by whole pages, erroring
/// when the memory would pass its limit.
#[verifier::external_body]
fn mem_grow(
    store: &mut wasmi::Store<()>,
    memory: &wasmi::Memory,
    pages: u64,
) -> Result<u64, wasmi::Error> {
    memory.grow(store, pages).map_err(wasmi::Error::from)
}

/// Relies on wasmi::Memory::data: a snapshot of the memory's bytes.
#[verifier::external_body]
fn mem_read_bytes(store: &wasmi::Store<()>, memory: &wasmi::Memory) -> Vec<u8> {
    memory.data(store).to_vec()
}

/// Relies on wasmi::TypedFunc::call: runs the guest's exported `init`,
/// erroring when the call traps.
#[verifier::external_body]
fn call_init(
    store: &mut wasmi::Store<()>,
    f: &wasmi::TypedFunc<(), ()>,
) -> Result<(), wasmi::Error> {
    f.call(store, ())
}

/// Relies on wasmi::TypedFunc::call: runs the guest's exported `update`
/// with the tick count, the frame counter and the host buffer offset,
/// returning whatever offset the guest returns, or erroring when the call
/// traps.
#[verifier::external_body]
fn call_update(
    store: &mut wasmi::Store<()>,
    f: &wasmi::TypedFunc<(u64, u64, u32), u32>,
    ticks: u64,
    frame: u64,
    host_base: u32,
) -> Result<u32, wasmi::Error> {
    f.call(store, (ticks, frame, host_base))
}

/// Copies one pixel buffer out of a snapshot of guest memory. The offset
/// the guest returned is validated first: the copy succeeds exactly when a
/// whole pixel buffer lies within the snapshot, and is rejected as a fatal
/// bounds violation before any byte is read otherwise.
pub fn copy_frame_bytes(bytes: &Vec<u8>, offset: usize) -> (r: Result<Vec<u8>, FatalError>)
    ensures
        r is Ok <==> offset + PIXEL_BUFFER_SIZE <= bytes@.len(),
        r is Err ==> r == Err::<Vec<u8>, FatalError>(FatalError::BoundsViolation),
        r is Ok ==> r->Ok_0@ == bytes@.subrange(
            offset as int,
            offset as int + PIXEL_BUFFER_SIZE as int,
        ),
{
    let n = bytes.len();
    if PIXEL_BUFFER_SIZE > n || offset > n - PIXEL_BUFFER_SIZE {
        return Err(FatalError::BoundsViolation);
    }
    let mut out: Vec<u8> = Vec::new();
    let mut k: usize = 0;
    while k < PIXEL_BUFFER_SIZE
        invariant
            k <= PIXEL_BUFFER_SIZE,
            offset + PIXEL_BUFFER_SIZE <= n,
            n == bytes@.len(),
            out@.len() == k,
            forall|i: int| 0 <= i < k ==> out@[i] == bytes@[offset + i],
        decreases PIXEL_BUFFER_SIZE - k,
    {
        out.push(bytes[offset + k]);
        k = k + 1;
    }
    proof {
        assert(out@ =~= bytes@.subrange(
            offset as int,
            offset as int + PIXEL_BUFFER_SIZE as int,
        ));
    }
    Ok(out)
}

/// A loaded guest module, its store and its validated export surface,
/// ready to be driven one `update` call per cycle. All fields originate
/// from one `load`, so every wasmi call below hands a store the values it
/// owns.
pub struct Sandbox {
    store: wasmi::Store<()>,
    memory: wasmi::Memory,
    init_fn: wasmi::TypedFunc<(), ()>,
    update_fn: wasmi::TypedFunc<(u64, u64, u32), u32>,
    host_base: u32,
}

impl Sandbox {
    /// Base offset of the reserved host buffer region.
    pub closed spec fn spec_host_base(self) -> u32 {
        self.host_base
    }

    /// Loads and instantiates a guest module and performs the setup
    /// protocol: validate the `init` and `update` exports and the memory,
    /// record the current top of memory as the host buffer region's base,
    /// grow the memory by one page, check the reservation fits, and call
    /// `init` once. Any failure is fatal: a module that cannot be
    /// instantiated or lacks the export surface is a configuration error,
    /// a memory that cannot hold the reservation is resource exhaustion,
    /// and a trapped `init` call ends the run before it starts.
    pub fn load(wasm: &Vec<u8>) -> (r: Result<Sandbox, FatalError>)
        ensures
            r is Ok ==> r->Ok_0.spec_host_base() + PIXEL_BUFFER_SIZE <= u32::MAX,
            r is Err ==> (r->Err_0 == FatalError::Configuration || r->Err_0
                == FatalError::ResourceExhaustion || r->Err_0 == FatalError::GuestTrap),
    {
        let engine = engine_new();
        let module = match module_new(&engine, wasm) {
            Ok(module) => module,
            Err(_) => {
                return Err(FatalError::Configuration);
            },
        };
        let mut store = store_new(&engine);
        let linker = linker_new(&engine);
        let instance = match instantiate(&linker, &mut store, &module) {
            Ok(instance) => instance,
            Err(_) => {
                return Err(FatalError::Configuration);
            },
        };
        let init_fn = match get_init(&instance, &store) {
            Ok(f) => f,
            Err(_) => {
                return Err(FatalError::Configuration);
            },
        };
        let update_fn = match get_update(&instance, &store) {
            Ok(f) => f,
            Err(_) => {
                return Err(FatalError::Configuration);
            },
        };
        let memory = match get_memory(&instance, &store) {
            Some(memory) => memory,
            None => {
                return Err(FatalError::Configuration);
            },
        };
        let base = mem_data_size(&store, &memory);
        if base > (0xFFFF_FFFFusize - PIXEL_BUFFER_SIZE) {
            return Err(FatalError::ResourceExhaustion);
        }
        if mem_grow(&mut store, &memory, 1).is_err() {
            return Err(FatalError::ResourceExhaustion);
        }
        let size_after = mem_data_size(&store, &memory);
        if size_after < base || size_after - base < PIXEL_BUFFER_SIZE {
            return Err(FatalError::ResourceExhaustion);
        }
        if call_init(&mut store, &init_fn).is_err() {
            return Err(FatalError::GuestTrap);
        }
        Ok(Sandbox { store, memory, init_fn, update_fn, host_base: base as u32 })
    }

    /// Base offset of the reserved host buffer region, as passed to every
    /// `update` call.
    pub fn host_base(&self) -> (b: u32)
        ensures
            b == self.spec_host_base(),
    {
        self.host_base
    }

    /// Drives one render cycle: calls the guest's `update` with the tick
    /// count, the frame counter and the host buffer offset, snapshots guest
    /// memory, and copies the returned pixel buffer out — after validating
    /// the returned offset, which is never trusted. A trapped call is
    /// fatal; an out-of-range offset is a fatal protocol breach.
    pub fn frame(&mut self, ticks: u64, frame: u64) -> (r: Result<Vec<u8>, FatalError>)
        ensures
            r is Ok ==> r->Ok_0@.len() == PIXEL_BUFFER_SIZE,
            r is Err ==> (r->Err_0 == FatalError::GuestTrap || r->Err_0
                == FatalError::BoundsViolation),
            final(self).spec_host_base() == old(self).spec_host_base(),
    {
        let host_base = self.host_base;
        let ret = match call_update(&mut self.store, &self.update_fn, ticks, frame, host_base) {
            Ok(ret) => ret,
            Err(_) => {
                return Err(FatalError::GuestTrap);
            },
        };
        let bytes = mem_read_bytes(&self.store, &self.memory);
        copy_frame_bytes(&bytes, ret as usize)
    }
}

} // verus!

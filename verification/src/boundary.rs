use vstd::prelude::*;

verus! {

// The sandboxed virtual machine, its compiled modules and its exported
// functions are opaque to the verifier: the host only moves integers and
// byte regions across the isolation boundary.

#[verifier::external_type_specification]
#[verifier::external_body]
pub struct ExStore(wasmer::Store);

#[verifier::external_type_specification]
#[verifier::external_body]
pub struct ExModule(wasmer::Module);

#[verifier::external_type_specification]
#[verifier::external_body]
pub struct ExInstance(wasmer::Instance);

#[verifier::external_type_specification]
#[verifier::external_body]
pub struct ExFunction(wasmer::Function);

/// Relies on wasmer::Store::new, with the default engine and tunables set
/// through wasmer::sys::NativeEngineExt so that linear memories are
/// allocated dynamically at their current size instead of as large static
/// address-space reservations: the host then also runs where address
/// space is constrained. Each worker owns its own store and never shares
/// it.
#[verifier::external_body]
pub(crate) fn new_store() -> wasmer::Store {
    let mut engine = wasmer::Engine::default();
    wasmer::sys::NativeEngineExt::set_tunables(
        &mut engine,
        wasmer::sys::BaseTunables {
            static_memory_bound: wasmer::Pages(0),
            static_memory_offset_guard_size: 0x1_0000,
            dynamic_memory_offset_guard_size: 0x1_0000,
        },
    );
    wasmer::Store::new(engine)
}

/// Relies on wasmer::Module::new: compiles bytecode against the store's
/// engine, or reports why the bytes were rejected.
#[verifier::external_body]
pub(crate) fn compile_module(store: &wasmer::Store, bytes: &[u8]) -> Result<wasmer::Module, String> {
    match wasmer::Module::new(store, bytes) {
        Ok(m) => Ok(m),
        Err(e) => Err(format!("{e}")),
    }
}

/// Relies on wasmer::Instance::new, with an empty import set: instantiates
/// the module in the store, running its start section if it has one.
#[verifier::external_body]
pub(crate) fn instantiate(
    store: &mut wasmer::Store,
    module: &wasmer::Module,
) -> Result<wasmer::Instance, String> {
    match wasmer::Instance::new(store, module, &wasmer::Imports::new()) {
        Ok(i) => Ok(i),
        Err(e) => Err(format!("{e}")),
    }
}

/// Relies on wasmer::Exports::get_function: looks an exported function up
/// by name, or reports the export as missing.
#[verifier::external_body]
pub(crate) fn export_function(
    instance: &wasmer::Instance,
    name: &str,
) -> Result<wasmer::Function, String> {
    match instance.exports.get_function(name) {
        Ok(f) => Ok(f.clone()),
        Err(e) => Err(format!("{e}")),
    }
}

/// What decoding a byte sequence as UTF-8 with lossy substitution yields:
/// a function of the bytes alone, left uninterpreted here.
pub uninterp spec fn utf8_lossy_of(bytes: Seq<u8>) -> Seq<char>;

/// Relies on String::from_utf8_lossy: the decoding depends on the bytes
/// alone; invalid sequences become replacement characters, so it never
/// fails.
#[verifier::external_body]
pub(crate) fn utf8_lossy(bytes: &Vec<u8>) -> (r: String)
    ensures
        r@ == utf8_lossy_of(bytes@),
        bytes@.len() == 0 ==> r@.len() == 0,
{
    String::from_utf8_lossy(bytes).into_owned()
}

} // verus!

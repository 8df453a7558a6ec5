//! The module bridge: hands the bytes of a dap's compiled module to the
//! WebAssembly engine and keeps the running instance that comes back.

use vstd::prelude::*;

verus! {

/// `wasmer::Store`, carried as it is; nothing inside it is looked at.
#[verifier::external_type_specification]
#[verifier::external_body]
pub struct ExStore(wasmer::Store);

/// `wasmer::Module`, carried as it is; nothing inside it is looked at.
#[verifier::external_type_specification]
#[verifier::external_body]
pub struct ExModule(wasmer::Module);

/// `wasmer::Imports`, carried as it is; nothing inside it is looked at.
#[verifier::external_type_specification]
#[verifier::external_body]
pub struct ExImports(wasmer::Imports);

/// `wasmer::Instance`, carried as it is; nothing inside it is looked at.
#[verifier::external_type_specification]
#[verifier::external_body]
pub struct ExInstance(wasmer::Instance);

/// `wasmer::CompileError`, carried as it is; only its text is taken.
#[verifier::external_type_specification]
#[verifier::external_body]
pub struct ExCompileError(wasmer::CompileError);

/// `wasmer::InstantiationError`, carried as it is; only its text is taken.
#[verifier::external_type_specification]
#[verifier::external_body]
pub struct ExInstantiationError(wasmer::InstantiationError);

/// `wasmer::Store::default`: a store on the default engine. Nothing is
/// claimed of the store.
#[verifier::external_body]
fn new_store() -> (store: wasmer::Store) {
    wasmer::Store::default()
}

/// `wasmer::Module::new`: validates and compiles module bytes (or module
/// text) for the store's engine. Nothing is claimed of which bytes are
/// accepted: that is for the engine to say.
#[verifier::external_body]
fn compile(store: &wasmer::Store, wasm: &[u8]) -> (r: Result<
    wasmer::Module,
    wasmer::CompileError,
>) {
    wasmer::Module::new(store, wasm)
}

/// `wasmer::Imports::new`: an import set that offers nothing.
#[verifier::external_body]
fn no_imports() -> (imports: wasmer::Imports) {
    wasmer::Imports::new()
}

/// `wasmer::Instance::new`: links the module against the imports and runs
/// its start function. Nothing is claimed of the outcome; the call returns
/// when the start function does.
#[verifier::external_body]
fn new_instance(
    store: &mut wasmer::Store,
    module: &wasmer::Module,
    imports: &wasmer::Imports,
) -> (r: Result<wasmer::Instance, wasmer::InstantiationError>) {
    wasmer::Instance::new(store, module, imports)
}

/// The engine's own words for why it did not compile a module, through the
/// `Display` of `wasmer::CompileError`. Nothing is claimed of the text.
#[verifier::external_body]
fn compile_error_text(error: &wasmer::CompileError) -> (text: String) {
    format!("{}", error)
}

/// The engine's own words for why it did not start an instance, through the
/// `Display` of `wasmer::InstantiationError`. Nothing is claimed of the
/// text.
#[verifier::external_body]
fn instantiation_error_text(error: &wasmer::InstantiationError) -> (text: String) {
    format!("{}", error)
}

/// What was read where a dap keeps its compiled module: the bytes, or why
/// there are none.
pub type ModuleRead = Result<Vec<u8>, String>;

/// Why a dap has no running module.
#[derive(Debug, PartialEq, Eq)]
pub enum ModuleError {
    /// The dap is not enabled, so nothing is instantiated for it.
    Disabled,
    /// The dap holds no running instance.
    NotLoaded,
    /// The module bytes could not be read; the text says why.
    Unreadable(String),
    /// The engine did not accept the bytes; the text is the engine's.
    Compile(String),
    /// The engine could not start an instance; the text is the engine's.
    Instantiate(String),
}

/// A running instance of a dap's module, with the store that it lives in.
pub struct ModuleInstance {
    store: wasmer::Store,
    instance: wasmer::Instance,
}

impl ModuleInstance {
    /// The instance as the engine knows it.
    pub closed spec fn spec_instance(&self) -> wasmer::Instance {
        self.instance
    }

    /// The store that the instance lives in.
    pub closed spec fn spec_store(&self) -> wasmer::Store {
        self.store
    }

    /// The instance as the engine knows it.
    pub fn instance(&self) -> (r: &wasmer::Instance)
        ensures
            *r == self.spec_instance(),
    {
        &self.instance
    }

    /// The store that the instance lives in.
    pub fn store(&self) -> (r: &wasmer::Store)
        ensures
            *r == self.spec_store(),
    {
        &self.store
    }
}

/// Whether an error is one that only the engine gives.
pub open spec fn from_engine(error: ModuleError) -> bool {
    error is Compile || error is Instantiate
}

/// Asks the engine for a running instance of the module in `wasm`, with no
/// imports, in a store of its own. Whether the engine accepts the bytes is
/// for the engine to say; when it does not, the error is `Compile` or
/// `Instantiate` with the engine's words.
pub fn instantiate(wasm: &[u8]) -> (r: Result<ModuleInstance, ModuleError>)
    ensures
        r matches Err(error) ==> from_engine(error),
{
    let mut store = new_store();
    let module = match compile(&store, wasm) {
        Ok(module) => module,
        Err(error) => {
            return Err(ModuleError::Compile(compile_error_text(&error)));
        },
    };
    let imports = no_imports();
    match new_instance(&mut store, &module, &imports) {
        Ok(instance) => Ok(ModuleInstance { store, instance }),
        Err(error) => Err(ModuleError::Instantiate(instantiation_error_text(&error))),
    }
}

/// Turns what was read where the module is kept into a running instance.
/// Bytes that could not be read are `Unreadable` with the reason given, and
/// the engine is not asked.
pub fn instantiate_read(module: ModuleRead) -> (r: Result<ModuleInstance, ModuleError>)
    ensures
        match module {
            Err(reason) => r matches Err(ModuleError::Unreadable(text)) && text == reason,
            Ok(_) => r matches Err(error) ==> from_engine(error),
        },
{
    match module {
        Err(reason) => Err(ModuleError::Unreadable(reason)),
        Ok(wasm) => instantiate(wasm.as_slice()),
    }
}

} // verus!

use vstd::prelude::*;

verus! {

/// Errors of the node id allocator.
#[derive(Debug, Clone, PartialEq, Eq)]
pub enum IdAllocationError {
    OutOfID,
}

/// Errors raised by the kernel.
#[derive(Debug, Clone, PartialEq, Eq)]
pub enum KernelError {
    IdAllocationError(IdAllocationError),
}

/// Errors of package publication.
#[derive(Debug, Clone, PartialEq, Eq)]
pub enum PackageError {
    /// The WASM validator refused the code; its message is kept.
    InvalidWasm(String),
    /// The blueprint uses a feature that Scrypto WASM packages do not support.
    WasmUnsupported(String),
}

/// Errors raised by blueprint code.
#[derive(Debug, Clone, PartialEq, Eq)]
pub enum ApplicationError {
    Panic(String),
    PackageError(PackageError),
}

/// Errors of the runtime.
#[derive(Debug, Clone, PartialEq, Eq)]
pub enum RuntimeError {
    KernelError(KernelError),
    ApplicationError(ApplicationError),
}

} // verus!

use vstd::prelude::*;
use crate::error::Error;
use crate::range_alloc::SimpleAllocator;
use crate::vm::Vm;

verus! {

/// The raw payload of one submission, as the client handed it over.
pub struct SubmitRequest {
    pub payload: Vec<u8>,
}

/// Executes rendering work. A context is bound to one renderer for its
/// lifetime; each submission runs against the context's address space and
/// may allocate from its shared allocator.
pub trait Renderer {
    /// Runs `request`, tagged with submission identifier `id`.
    fn render(
        &mut self,
        vm: &Vm,
        allocator: &mut SimpleAllocator,
        request: &SubmitRequest,
        id: u64,
    ) -> Result<(), Error>;
}

} // verus!

use vstd::prelude::*;

use crate::fuzzer_engine::{inputs_view, RadixRuntimeFuzzerInput};
use crate::transaction_model::{blobs_view, clone_context, Executable, ExecutionContext};
use crate::types::{HashBytes, NodeId};

verus! {

/// A recorded transaction: its encoded instructions, references, blobs and
/// context, and the recorded runtime calls of each of its WASM invocations.
pub struct RadixRuntimeFuzzerTransaction {
    pub instructions: Vec<u8>,
    pub references: Vec<NodeId>,
    pub blobs: Vec<(HashBytes, Vec<u8>)>,
    pub execution_context: ExecutionContext,
    pub invokes: Vec<RadixRuntimeFuzzerInput>,
}

impl RadixRuntimeFuzzerTransaction {
    /// The transaction as the engine runs it.
    pub fn get_executable<'a>(&'a mut self) -> (r: Executable<'a>)
        ensures
            r.encoded_instructions@ == old(self).instructions@,
            r.references@ == old(self).references@,
            blobs_view(r.blobs@) == blobs_view(old(self).blobs@),
            r.context@ == old(self).execution_context@,
            final(self).instructions@ == old(self).instructions@,
            final(self).references@ == old(self).references@,
            blobs_view(final(self).blobs@) == blobs_view(old(self).blobs@),
            final(self).execution_context@ == old(self).execution_context@,
            inputs_view(final(self).invokes@) == inputs_view(old(self).invokes@),
    {
        let context = clone_context(&self.execution_context);
        Executable::new(self.instructions.as_slice(), &self.references, &self.blobs, context)
    }
}

} // verus!

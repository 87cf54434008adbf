use vstd::prelude::*;

use crate::bytes::{byte_lists, copy_byte_lists, copy_bytes};
use crate::fuzzer_engine::{inputs_view, RadixRuntimeFuzzerInput};
use crate::transaction_model::{
    blobs_view, clone_blobs, clone_context, clone_instructions, clone_node_ids,
    context_is_system_transaction, instructions_view, is_system_transaction, set_call_args,
    ContextView, Executable, ExecutionContext, InstructionV1, InstructionView, ManifestValue,
    ManifestValueView,
};
use crate::types::{HashBytes, NodeId};

verus! {

/// The argument that replaces those of an instruction whose invocation was
/// recorded.
pub open spec fn fuzz_invoke_marker() -> ManifestValueView {
    ManifestValueView::String("fuzz_invoke"@)
}

/// Records the top-level runtime calls of one WASM invocation.
pub struct RadixRuntimeInvokeLogger {
    instructions: Vec<Vec<u8>>,
    depth: usize,
}

impl View for RadixRuntimeInvokeLogger {
    /// The recorded calls and the current call depth.
    type V = (Seq<Seq<u8>>, nat);

    closed spec fn view(&self) -> (Seq<Seq<u8>>, nat) {
        (byte_lists(self.instructions@), self.depth as nat)
    }
}

impl RadixRuntimeInvokeLogger {
    /// A logger for an invocation with the given arguments.
    pub fn new(data: &Vec<u8>) -> (r: Self)
        ensures
            r@ == (Seq::<Seq<u8>>::empty(), 0nat),
    {
        let r = Self { instructions: Vec::new(), depth: 0 };
        assert(byte_lists(r.instructions@) =~= Seq::<Seq<u8>>::empty());
        r
    }

    /// Records the invocation's return value and gives back all its calls.
    pub fn finish(&mut self, data: &Vec<u8>) -> (r: &RadixRuntimeFuzzerInput)
        ensures
            final(self)@ == (old(self)@.0.push(data@), old(self)@.1),
            byte_lists(r@) == final(self)@.0,
    {
        let ghost before = self.instructions@;
        self.instructions.push(copy_bytes(data));
        assert(byte_lists(self.instructions@) =~= byte_lists(before).push(data@));
        &self.instructions
    }

    /// A runtime call starts; one at depth 0 is recorded.
    pub fn runtime_call_start(&mut self, func_name: String, data: Vec<u8>)
        requires
            old(self)@.1 < usize::MAX,
        ensures
            final(self)@ == (
                if old(self)@.1 == 0 {
                    old(self)@.0.push(data@)
                } else {
                    old(self)@.0
                },
                old(self)@.1 + 1,
            ),
    {
        let ghost before = self.instructions@;
        if self.depth == 0 {
            self.instructions.push(data);
            assert(byte_lists(self.instructions@) =~= byte_lists(before).push(data@));
        }
        self.depth = self.depth + 1;
    }

    /// A nested invocation ends; this logger keeps no trace of it.
    pub fn invoke_in_invoke_end(&mut self, invoke_logger: RadixRuntimeInvokeLogger, data: &Vec<u8>)
        ensures
            final(self)@ == old(self)@,
    {
    }

    /// A runtime call ends.
    pub fn runtime_call_end(&mut self, func_name: String, data: Option<Vec<u8>>)
        requires
            old(self)@.1 > 0,
        ensures
            final(self)@ == (old(self)@.0, (old(self)@.1 - 1) as nat),
    {
        self.depth = self.depth - 1;
    }
}

/// A finished transaction with the recorded calls of its top-level
/// invocations, to be encoded and written to its own file.
pub struct LoggedTransaction {
    /// The number of the transaction, which names its file.
    pub tx_id: usize,
    pub instructions: Vec<InstructionV1>,
    pub references: Vec<NodeId>,
    pub blobs: Vec<(HashBytes, Vec<u8>)>,
    pub execution_context: ExecutionContext,
    pub invokes: Vec<RadixRuntimeFuzzerInput>,
}

/// The states of a list of invocation loggers.
pub open spec fn loggers_view(v: Seq<RadixRuntimeInvokeLogger>) -> Seq<(Seq<Seq<u8>>, nat)> {
    Seq::new(v.len(), |i: int| v[i]@)
}

/// Records the transactions the engine runs; each top-level WASM invocation
/// is kept apart and its instruction's arguments are replaced by a marker.
pub struct RadixRuntimeLogger {
    instructions: Vec<InstructionV1>,
    references: Vec<NodeId>,
    blobs: Vec<(HashBytes, Vec<u8>)>,
    execution_context: Option<ExecutionContext>,
    instruction_index: usize,
    invoke_loggers: Vec<RadixRuntimeInvokeLogger>,
    invokes: Vec<RadixRuntimeFuzzerInput>,
    tx_id: usize,
}

impl RadixRuntimeLogger {
    /// The instructions of the running transaction.
    pub closed spec fn instructions_log(&self) -> Seq<InstructionView> {
        instructions_view(self.instructions@)
    }

    /// The nodes the running transaction references.
    pub closed spec fn references_log(&self) -> Seq<NodeId> {
        self.references@
    }

    /// The blobs of the running transaction, by hash.
    pub closed spec fn blobs_log(&self) -> Seq<(HashBytes, Seq<u8>)> {
        blobs_view(self.blobs@)
    }

    /// The context of the running transaction.
    pub closed spec fn context_log(&self) -> Option<ContextView> {
        match self.execution_context {
            Some(c) => Some(c@),
            None => None,
        }
    }

    /// The number of instructions started so far.
    pub closed spec fn instruction_count(&self) -> nat {
        self.instruction_index as nat
    }

    /// The loggers of the running invocations, innermost last.
    pub closed spec fn invoke_logs(&self) -> Seq<(Seq<Seq<u8>>, nat)> {
        loggers_view(self.invoke_loggers@)
    }

    /// The recorded calls of each finished top-level invocation.
    pub closed spec fn finished_invokes(&self) -> Seq<Seq<Seq<u8>>> {
        inputs_view(self.invokes@)
    }

    /// The number of transactions logged so far.
    pub closed spec fn logged_count(&self) -> nat {
        self.tx_id as nat
    }

    pub fn new() -> (r: Self)
        ensures
            r.instructions_log() == Seq::<InstructionView>::empty(),
            r.references_log() == Seq::<NodeId>::empty(),
            r.blobs_log() == Seq::<(HashBytes, Seq<u8>)>::empty(),
            r.context_log() is None,
            r.instruction_count() == 0,
            r.invoke_logs() == Seq::<(Seq<Seq<u8>>, nat)>::empty(),
            r.finished_invokes() == Seq::<Seq<Seq<u8>>>::empty(),
            r.logged_count() == 0,
    {
        let r = Self {
            instructions: Vec::new(),
            references: Vec::new(),
            blobs: Vec::new(),
            execution_context: None,
            instruction_index: 0,
            invoke_loggers: Vec::new(),
            invokes: Vec::new(),
            tx_id: 0,
        };
        assert(r.instructions_log() =~= Seq::<InstructionView>::empty());
        assert(r.blobs_log() =~= Seq::<(HashBytes, Seq<u8>)>::empty());
        assert(r.invoke_logs() =~= Seq::<(Seq<Seq<u8>>, nat)>::empty());
        assert(r.finished_invokes() =~= Seq::<Seq<Seq<u8>>>::empty());
        r
    }

    /// A transaction starts: the logger takes its (decoded) instructions,
    /// references, blobs and context.
    pub fn transaction_execution_start(&mut self, executable: &Executable, instructions: Vec<InstructionV1>)
        ensures
            final(self).instructions_log() == instructions_view(instructions@),
            final(self).references_log() == executable.references@,
            final(self).blobs_log() == blobs_view(executable.blobs@),
            final(self).context_log() == Some(executable.context@),
            final(self).instruction_count() == 0,
            final(self).invoke_logs() == Seq::<(Seq<Seq<u8>>, nat)>::empty(),
            final(self).finished_invokes() == Seq::<Seq<Seq<u8>>>::empty(),
            final(self).logged_count() == old(self).logged_count(),
    {
        self.instructions = instructions;
        self.references = clone_node_ids(executable.references);
        self.blobs = clone_blobs(executable.blobs);
        self.execution_context = Some(clone_context(&executable.context));
        self.instruction_index = 0;
        self.invoke_loggers = Vec::new();
        self.invokes = Vec::new();
        assert(self.invoke_logs() =~= Seq::<(Seq<Seq<u8>>, nat)>::empty());
        assert(self.finished_invokes() =~= Seq::<Seq<Seq<u8>>>::empty());
    }

    /// A transaction ends; every instruction must have started. A system
    /// transaction is not logged; any other is handed back to be written,
    /// whether it succeeded or not, and counted.
    pub fn transaction_execution_end(&mut self, success: bool) -> (r: Option<LoggedTransaction>)
        requires
            old(self).instruction_count() == old(self).instructions_log().len(),
            old(self).context_log() is Some,
            old(self).logged_count() < usize::MAX,
        ensures
            final(self).instructions_log() == old(self).instructions_log(),
            final(self).references_log() == old(self).references_log(),
            final(self).blobs_log() == old(self).blobs_log(),
            final(self).context_log() == old(self).context_log(),
            final(self).instruction_count() == old(self).instruction_count(),
            final(self).invoke_logs() == old(self).invoke_logs(),
            final(self).finished_invokes() == old(self).finished_invokes(),
            is_system_transaction(old(self).context_log().unwrap()) ==> {
                &&& r is None
                &&& final(self).logged_count() == old(self).logged_count()
            },
            !is_system_transaction(old(self).context_log().unwrap()) ==> {
                &&& r matches Some(data) && {
                    &&& data.tx_id == old(self).logged_count()
                    &&& instructions_view(data.instructions@) == old(self).instructions_log()
                    &&& data.references@ == old(self).references_log()
                    &&& blobs_view(data.blobs@) == old(self).blobs_log()
                    &&& Some(data.execution_context@) == old(self).context_log()
                    &&& inputs_view(data.invokes@) == old(self).finished_invokes()
                }
                &&& final(self).logged_count() == old(self).logged_count() + 1
            },
    {
        let context = match &self.execution_context {
            Some(c) => c,
            None => {
                return None;
            },
        };
        if context_is_system_transaction(context) {
            return None;
        }
        let mut invokes: Vec<RadixRuntimeFuzzerInput> = Vec::new();
        let mut i: usize = 0;
        while i < self.invokes.len()
            invariant
                i <= self.invokes@.len(),
                invokes@.len() == i,
                forall|k: int| 0 <= k < i ==> #[trigger] byte_lists(invokes@[k]@) == byte_lists(self.invokes@[k]@),
            decreases self.invokes@.len() - i,
        {
            invokes.push(copy_byte_lists(&self.invokes[i]));
            i = i + 1;
        }
        assert(inputs_view(invokes@) =~= inputs_view(self.invokes@));
        let data = LoggedTransaction {
            tx_id: self.tx_id,
            instructions: clone_instructions(&self.instructions),
            references: clone_node_ids(&self.references),
            blobs: clone_blobs(&self.blobs),
            execution_context: clone_context(context),
            invokes,
        };
        self.tx_id = self.tx_id + 1;
        Some(data)
    }

    /// An instruction starts; it must be the next instruction of the
    /// transaction.
    pub fn instruction_start(&mut self, instruction: &InstructionV1)
        requires
            old(self).instruction_count() < old(self).instructions_log().len(),
            old(self).instructions_log()[old(self).instruction_count() as int] == instruction@,
        ensures
            final(self).instruction_count() == old(self).instruction_count() + 1,
            final(self).instructions_log() == old(self).instructions_log(),
            final(self).references_log() == old(self).references_log(),
            final(self).blobs_log() == old(self).blobs_log(),
            final(self).context_log() == old(self).context_log(),
            final(self).invoke_logs() == old(self).invoke_logs(),
            final(self).finished_invokes() == old(self).finished_invokes(),
            final(self).logged_count() == old(self).logged_count(),
    {
        let count = self.instructions.len();
        assert(self.instructions_log().len() == count);
        self.instruction_index = self.instruction_index + 1;
    }

    /// A WASM invocation starts with a new logger.
    pub fn invoke_start(&mut self, data: &Vec<u8>)
        ensures
            final(self).invoke_logs() == old(self).invoke_logs().push((Seq::<Seq<u8>>::empty(), 0nat)),
            final(self).instructions_log() == old(self).instructions_log(),
            final(self).references_log() == old(self).references_log(),
            final(self).blobs_log() == old(self).blobs_log(),
            final(self).context_log() == old(self).context_log(),
            final(self).instruction_count() == old(self).instruction_count(),
            final(self).finished_invokes() == old(self).finished_invokes(),
            final(self).logged_count() == old(self).logged_count(),
    {
        self.invoke_loggers.push(RadixRuntimeInvokeLogger::new(data));
        assert(self.invoke_logs() =~= old(self).invoke_logs().push((Seq::<Seq<u8>>::empty(), 0nat)));
    }

    /// The innermost WASM invocation ends with the given return value. A
    /// nested one leaves no trace; a top-level one is kept with its return
    /// value, and the instruction that made it gets the marker argument.
    pub fn invoke_end(&mut self, data: &Vec<u8>)
        requires
            old(self).invoke_logs().len() > 0,
            old(self).invoke_logs().len() == 1 ==> {
                &&& 1 <= old(self).instruction_count() <= old(self).instructions_log().len()
                &&& old(self).instructions_log()[old(self).instruction_count() - 1].is_call()
            },
        ensures
            final(self).invoke_logs() == old(self).invoke_logs().drop_last(),
            final(self).references_log() == old(self).references_log(),
            final(self).blobs_log() == old(self).blobs_log(),
            final(self).context_log() == old(self).context_log(),
            final(self).instruction_count() == old(self).instruction_count(),
            final(self).logged_count() == old(self).logged_count(),
            old(self).invoke_logs().len() > 1 ==> {
                &&& final(self).instructions_log() == old(self).instructions_log()
                &&& final(self).finished_invokes() == old(self).finished_invokes()
            },
            old(self).invoke_logs().len() == 1 ==> ({
                let at = old(self).instruction_count() - 1;
                &&& final(self).finished_invokes() == old(self).finished_invokes().push(
                    old(self).invoke_logs()[0].0.push(data@),
                )
                &&& final(self).instructions_log() == old(self).instructions_log().update(
                    at,
                    old(self).instructions_log()[at].with_args(fuzz_invoke_marker()),
                )
            }),
    {
        let ghost logs = self.invoke_logs();
        let mut invoke_logger = match self.invoke_loggers.pop() {
            Some(l) => l,
            None => {
                return;
            },
        };
        assert(invoke_logger@ == logs.last());
        assert(self.invoke_logs() =~= logs.drop_last());
        if self.invoke_loggers.len() > 0 {
            let parent_index = self.invoke_loggers.len() - 1;
            let mut parent = self.invoke_loggers.remove(parent_index);
            parent.invoke_in_invoke_end(invoke_logger, data);
            self.invoke_loggers.push(parent);
            assert(self.invoke_logs() =~= logs.drop_last());
        } else {
            let recorded = copy_byte_lists(invoke_logger.finish(data));
            let ghost before_invokes = self.invokes@;
            self.invokes.push(recorded);
            assert(inputs_view(self.invokes@) =~= inputs_view(before_invokes).push(logs[0].0.push(data@)));
            let marker = String::from_str("fuzz_invoke");
            proof {
                reveal_strlit("fuzz_invoke");
            }
            let at = self.instruction_index - 1;
            let ghost before = self.instructions@;
            let mut instruction = self.instructions.remove(at);
            set_call_args(&mut instruction, ManifestValue::String { value: marker });
            self.instructions.insert(at, instruction);
            assert(self.instructions_log() =~= instructions_view(before).update(
                at as int,
                instructions_view(before)[at as int].with_args(fuzz_invoke_marker()),
            ));
        }
    }

    /// A runtime call of the innermost invocation starts.
    pub fn runtime_call_start(&mut self, func_name: String, data: Vec<u8>)
        requires
            old(self).invoke_logs().len() > 0,
            old(self).invoke_logs().last().1 < usize::MAX,
        ensures
            ({
                let logs = old(self).invoke_logs();
                let top = logs.last();
                final(self).invoke_logs() == logs.update(
                    logs.len() - 1,
                    (
                        if top.1 == 0 {
                            top.0.push(data@)
                        } else {
                            top.0
                        },
                        top.1 + 1,
                    ),
                )
            }),
            final(self).instructions_log() == old(self).instructions_log(),
            final(self).references_log() == old(self).references_log(),
            final(self).blobs_log() == old(self).blobs_log(),
            final(self).context_log() == old(self).context_log(),
            final(self).instruction_count() == old(self).instruction_count(),
            final(self).finished_invokes() == old(self).finished_invokes(),
            final(self).logged_count() == old(self).logged_count(),
    {
        let ghost logs = self.invoke_logs();
        let ghost d = data@;
        let top = self.invoke_loggers.len() - 1;
        let mut logger = self.invoke_loggers.remove(top);
        logger.runtime_call_start(func_name, data);
        self.invoke_loggers.push(logger);
        let ghost t = logs.last();
        assert(self.invoke_logs() =~= logs.update(
            logs.len() - 1,
            (
                if t.1 == 0 {
                    t.0.push(d)
                } else {
                    t.0
                },
                t.1 + 1,
            ),
        ));
    }

    /// A runtime call of the innermost invocation ends.
    pub fn runtime_call_end(&mut self, func_name: String, data: Option<Vec<u8>>)
        requires
            old(self).invoke_logs().len() > 0,
            old(self).invoke_logs().last().1 > 0,
        ensures
            ({
                let logs = old(self).invoke_logs();
                final(self).invoke_logs() == logs.update(
                    logs.len() - 1,
                    (logs.last().0, (logs.last().1 - 1) as nat),
                )
            }),
            final(self).instructions_log() == old(self).instructions_log(),
            final(self).references_log() == old(self).references_log(),
            final(self).blobs_log() == old(self).blobs_log(),
            final(self).context_log() == old(self).context_log(),
            final(self).instruction_count() == old(self).instruction_count(),
            final(self).finished_invokes() == old(self).finished_invokes(),
            final(self).logged_count() == old(self).logged_count(),
    {
        let ghost logs = self.invoke_logs();
        let top = self.invoke_loggers.len() - 1;
        let mut logger = self.invoke_loggers.remove(top);
        logger.runtime_call_end(func_name, data);
        self.invoke_loggers.push(logger);
        assert(self.invoke_logs() =~= logs.update(
            logs.len() - 1,
            (logs.last().0, (logs.last().1 - 1) as nat),
        ));
    }
}

} // verus!

//! The runtime fuzzer's call logger, which records each top-level runtime
//! call with its function id, and folds nested invocations into the
//! arguments of the call that made them.

pub mod logger;
pub mod transaction;

use vstd::prelude::*;

use crate::bytes::{byte_lists, copy_byte_lists, copy_bytes};
use crate::payload::{
    bytes_payload, call_log_payload, call_log_sizes_fit, encode_bytes_payload,
    encode_call_log_payload, MAX_SIZE,
};
use crate::transaction_model::{
    blobs_view, call_log_view, clone_blobs, clone_call_log, clone_context, clone_instructions,
    clone_node_ids, context_is_system_transaction, instructions_view, is_system_transaction,
    set_call_args, ContextView, Executable, ExecutionContext, InstructionV1, InstructionView,
    ManifestValue, ManifestValueView,
};
use crate::types::{HashBytes, NodeId};

verus! {

/// The function id that marks the return value of an invocation.
pub const RETURN_FUNC_ID: u8 = 0xFF;

/// The log of a call list after a runtime call starts: a call at depth 0 is
/// recorded with its function id and arguments.
pub open spec fn calls_after_call_start(
    calls: Seq<(u8, Seq<Seq<u8>>)>,
    depth: nat,
    func_id: u8,
    data: Seq<Seq<u8>>,
) -> Seq<(u8, Seq<Seq<u8>>)> {
    if depth == 0 {
        calls.push((func_id, data))
    } else {
        calls
    }
}

/// A call list with its return value appended.
pub open spec fn calls_finished(calls: Seq<(u8, Seq<Seq<u8>>)>, data: Seq<u8>) -> Seq<(u8, Seq<Seq<u8>>)> {
    calls.push((RETURN_FUNC_ID, seq![data]))
}

/// The arguments of a call with the last one replaced by the double-encoded
/// call list of a nested invocation.
pub open spec fn args_with_nested(args: Seq<Seq<u8>>, nested: Seq<(u8, Seq<Seq<u8>>)>) -> Seq<Seq<u8>> {
    let kept = if args.len() > 0 {
        args.drop_last()
    } else {
        args
    };
    kept.push(bytes_payload(call_log_payload(nested)))
}

/// Whether a finished nested call list can be encoded into its parent's last
/// call: the parent has a call and every size fits a payload.
pub open spec fn nested_end_fits(parent: Seq<(u8, Seq<Seq<u8>>)>, nested: Seq<(u8, Seq<Seq<u8>>)>) -> bool {
    &&& parent.len() > 0
    &&& call_log_sizes_fit(nested)
    &&& call_log_payload(nested).len() <= MAX_SIZE
}

/// Records the top-level runtime calls of one WASM invocation, each with its
/// function id.
pub struct RadixRuntimeInvokeLogger {
    instructions: Vec<(u8, Vec<Vec<u8>>)>,
    depth: usize,
}

impl View for RadixRuntimeInvokeLogger {
    /// The recorded calls and the current call depth.
    type V = (Seq<(u8, Seq<Seq<u8>>)>, nat);

    closed spec fn view(&self) -> (Seq<(u8, Seq<Seq<u8>>)>, nat) {
        (call_log_view(self.instructions@), self.depth as nat)
    }
}

impl RadixRuntimeInvokeLogger {
    /// A logger for an invocation with the given arguments.
    pub fn new(data: &Vec<u8>) -> (r: Self)
        ensures
            r@ == (Seq::<(u8, Seq<Seq<u8>>)>::empty(), 0nat),
    {
        let r = Self { instructions: Vec::new(), depth: 0 };
        assert(call_log_view(r.instructions@) =~= Seq::<(u8, Seq<Seq<u8>>)>::empty());
        r
    }

    /// Records the invocation's return value and gives back all its calls.
    pub fn finish(&mut self, data: &Vec<u8>) -> (r: &Vec<(u8, Vec<Vec<u8>>)>)
        ensures
            final(self)@ == (calls_finished(old(self)@.0, data@), old(self)@.1),
            call_log_view(r@) == final(self)@.0,
    {
        let ghost before = self.instructions@;
        let mut ret: Vec<Vec<u8>> = Vec::new();
        ret.push(copy_bytes(data));
        assert(byte_lists(ret@) =~= seq![data@]);
        self.instructions.push((RETURN_FUNC_ID, ret));
        assert(call_log_view(self.instructions@) =~= calls_finished(call_log_view(before), data@));
        &self.instructions
    }

    /// A runtime call starts.
    pub fn runtime_call_start(&mut self, func_name: String, func_id: u8, data: Vec<Vec<u8>>)
        requires
            old(self)@.1 < usize::MAX,
        ensures
            final(self)@ == (
                calls_after_call_start(old(self)@.0, old(self)@.1, func_id, byte_lists(data@)),
                old(self)@.1 + 1,
            ),
    {
        let ghost before = self.instructions@;
        let ghost args = byte_lists(data@);
        if self.depth == 0 {
            self.instructions.push((func_id, data));
            assert(call_log_view(self.instructions@) =~= call_log_view(before).push((func_id, args)));
        }
        self.depth = self.depth + 1;
    }

    /// A nested invocation ends: its finished call list, encoded twice,
    /// replaces the last argument of this invocation's last call.
    pub fn invoke_in_invoke_end(&mut self, invoke_logger: RadixRuntimeInvokeLogger, data: &Vec<u8>)
        requires
            nested_end_fits(old(self)@.0, calls_finished(invoke_logger@.0, data@)),
        ensures
            ({
                let calls = old(self)@.0;
                let last = calls.last();
                final(self)@ == (
                    calls.update(
                        calls.len() - 1,
                        (last.0, args_with_nested(last.1, calls_finished(invoke_logger@.0, data@))),
                    ),
                    old(self)@.1,
                )
            }),
    {
        let ghost nested_before = invoke_logger@;
        let mut invoke_logger = invoke_logger;
        let nested = invoke_logger.finish(data);
        let inner = encode_call_log_payload(nested);
        let outer = encode_bytes_payload(&inner);
        let last_index = self.instructions.len() - 1;
        let ghost before = self.instructions@;
        let (func_id, mut args) = self.instructions.remove(last_index);
        let ghost old_args = byte_lists(args@);
        args.pop();
        proof {
            if old_args.len() > 0 {
                assert(byte_lists(args@) =~= old_args.drop_last());
            } else {
                assert(byte_lists(args@) =~= old_args);
            }
        }
        let ghost kept = byte_lists(args@);
        args.push(outer);
        assert(byte_lists(args@) =~= kept.push(outer@));
        self.instructions.push((func_id, args));
        assert(call_log_view(self.instructions@) =~= call_log_view(before).update(
            last_index as int,
            (func_id, args_with_nested(old_args, calls_finished(nested_before.0, data@))),
        ));
    }

    /// A runtime call ends.
    pub fn runtime_call_end(&mut self, func_name: String, func_id: u8, data: Vec<Vec<u8>>)
        requires
            old(self)@.1 > 0,
        ensures
            final(self)@ == (old(self)@.0, (old(self)@.1 - 1) as nat),
    {
        self.depth = self.depth - 1;
    }
}

/// A recorded transaction: its encoded instructions, references, blobs and
/// context.
pub struct RadixRuntimeFuzzerData {
    pub instructions: Vec<u8>,
    pub references: Vec<NodeId>,
    pub blobs: Vec<(HashBytes, Vec<u8>)>,
    pub execution_context: ExecutionContext,
}

impl RadixRuntimeFuzzerData {
    /// The transaction as the engine runs it.
    pub fn get_executable<'a>(&'a self) -> (r: Executable<'a>)
        ensures
            r.encoded_instructions@ == self.instructions@,
            r.references@ == self.references@,
            blobs_view(r.blobs@) == blobs_view(self.blobs@),
            r.context@ == self.execution_context@,
    {
        let context = clone_context(&self.execution_context);
        Executable::new(self.instructions.as_slice(), &self.references, &self.blobs, context)
    }
}

/// A finished transaction, to be encoded and written to its own file.
pub struct LoggedData {
    /// The number of the transaction, which names its file.
    pub tx_id: usize,
    pub instructions: Vec<InstructionV1>,
    pub references: Vec<NodeId>,
    pub blobs: Vec<(HashBytes, Vec<u8>)>,
    pub execution_context: ExecutionContext,
}

/// The states of a list of invocation loggers.
pub open spec fn loggers_view(v: Seq<RadixRuntimeInvokeLogger>) -> Seq<(Seq<(u8, Seq<Seq<u8>>)>, nat)> {
    Seq::new(v.len(), |i: int| v[i]@)
}

/// Records the transactions the engine runs; the calls of each top-level
/// WASM invocation become the arguments of the instruction that made it.
pub struct RadixRuntimeLogger {
    instructions: Vec<InstructionV1>,
    references: Vec<NodeId>,
    blobs: Vec<(HashBytes, Vec<u8>)>,
    execution_context: Option<ExecutionContext>,
    instruction_index: usize,
    invoke_loggers: Vec<RadixRuntimeInvokeLogger>,
    tx_id: usize,
    enabled: bool,
}

impl RadixRuntimeLogger {
    /// The instructions of the running transaction.
    pub closed spec fn instructions_log(&self) -> Seq<InstructionView> {
        instructions_view(self.instructions@)
    }

    /// The nodes the running transaction references.
    pub closed spec fn references_log(&self) -> Seq<NodeId> {
        self.references@
    }

    /// The blobs of the running transaction, by hash.
    pub closed spec fn blobs_log(&self) -> Seq<(HashBytes, Seq<u8>)> {
        blobs_view(self.blobs@)
    }

    /// The context of the running transaction.
    pub closed spec fn context_log(&self) -> Option<ContextView> {
        match self.execution_context {
            Some(c) => Some(c@),
            None => None,
        }
    }

    /// The number of instructions started so far.
    pub closed spec fn instruction_count(&self) -> nat {
        self.instruction_index as nat
    }

    /// The loggers of the running invocations, innermost last.
    pub closed spec fn invoke_logs(&self) -> Seq<(Seq<(u8, Seq<Seq<u8>>)>, nat)> {
        loggers_view(self.invoke_loggers@)
    }

    /// The number of transactions logged so far.
    pub closed spec fn logged_count(&self) -> nat {
        self.tx_id as nat
    }

    /// Whether the logger records anything.
    pub closed spec fn is_enabled(&self) -> bool {
        self.enabled
    }

    pub fn new() -> (r: Self)
        ensures
            r.instructions_log() == Seq::<InstructionView>::empty(),
            r.references_log() == Seq::<NodeId>::empty(),
            r.blobs_log() == Seq::<(HashBytes, Seq<u8>)>::empty(),
            r.context_log() is None,
            r.instruction_count() == 0,
            r.invoke_logs() == Seq::<(Seq<(u8, Seq<Seq<u8>>)>, nat)>::empty(),
            r.logged_count() == 0,
            r.is_enabled(),
    {
        let r = Self {
            instructions: Vec::new(),
            references: Vec::new(),
            blobs: Vec::new(),
            execution_context: None,
            instruction_index: 0,
            invoke_loggers: Vec::new(),
            tx_id: 0,
            enabled: true,
        };
        assert(r.instructions_log() =~= Seq::<InstructionView>::empty());
        assert(r.blobs_log() =~= Seq::<(HashBytes, Seq<u8>)>::empty());
        assert(r.invoke_logs() =~= Seq::<(Seq<(u8, Seq<Seq<u8>>)>, nat)>::empty());
        r
    }

    /// Stops all recording.
    pub fn disable(&mut self)
        ensures
            !final(self).is_enabled(),
            final(self).instructions_log() == old(self).instructions_log(),
            final(self).references_log() == old(self).references_log(),
            final(self).blobs_log() == old(self).blobs_log(),
            final(self).context_log() == old(self).context_log(),
            final(self).instruction_count() == old(self).instruction_count(),
            final(self).invoke_logs() == old(self).invoke_logs(),
            final(self).logged_count() == old(self).logged_count(),
    {
        self.enabled = false;
    }

    /// A transaction starts: an enabled logger takes its (decoded)
    /// instructions, references, blobs and context; a disabled one ignores it.
    pub fn transaction_execution_start(&mut self, executable: &Executable, instructions: Vec<InstructionV1>)
        ensures
            final(self).is_enabled() == old(self).is_enabled(),
            final(self).logged_count() == old(self).logged_count(),
            old(self).is_enabled() ==> {
                &&& final(self).instructions_log() == instructions_view(instructions@)
                &&& final(self).references_log() == executable.references@
                &&& final(self).blobs_log() == blobs_view(executable.blobs@)
                &&& final(self).context_log() == Some(executable.context@)
                &&& final(self).instruction_count() == 0
                &&& final(self).invoke_logs() == Seq::<(Seq<(u8, Seq<Seq<u8>>)>, nat)>::empty()
            },
            !old(self).is_enabled() ==> {
                &&& final(self).instructions_log() == old(self).instructions_log()
                &&& final(self).references_log() == old(self).references_log()
                &&& final(self).blobs_log() == old(self).blobs_log()
                &&& final(self).context_log() == old(self).context_log()
                &&& final(self).instruction_count() == old(self).instruction_count()
                &&& final(self).invoke_logs() == old(self).invoke_logs()
            },
    {
        if !self.enabled {
            return;
        }
        self.instructions = instructions;
        self.references = clone_node_ids(executable.references);
        self.blobs = clone_blobs(executable.blobs);
        self.execution_context = Some(clone_context(&executable.context));
        self.instruction_index = 0;
        self.invoke_loggers = Vec::new();
        assert(self.invoke_logs() =~= Seq::<(Seq<(u8, Seq<Seq<u8>>)>, nat)>::empty());
    }

    /// A transaction ends. A successful, non-system transaction of an
    /// enabled logger is handed back to be written, and counted.
    pub fn transaction_execution_end(&mut self, success: bool) -> (r: Option<LoggedData>)
        requires
            (success && old(self).is_enabled()) ==> {
                &&& old(self).instruction_count() == old(self).instructions_log().len()
                &&& old(self).context_log() is Some
                &&& old(self).logged_count() < usize::MAX
            },
        ensures
            final(self).is_enabled() == old(self).is_enabled(),
            final(self).instructions_log() == old(self).instructions_log(),
            final(self).references_log() == old(self).references_log(),
            final(self).blobs_log() == old(self).blobs_log(),
            final(self).context_log() == old(self).context_log(),
            final(self).instruction_count() == old(self).instruction_count(),
            final(self).invoke_logs() == old(self).invoke_logs(),
            (!success || !old(self).is_enabled() || is_system_transaction(old(self).context_log().unwrap()))
                ==> {
                &&& r is None
                &&& final(self).logged_count() == old(self).logged_count()
            },
            (success && old(self).is_enabled() && !is_system_transaction(old(self).context_log().unwrap()))
                ==> {
                &&& r matches Some(data) && {
                    &&& data.tx_id == old(self).logged_count()
                    &&& instructions_view(data.instructions@) == old(self).instructions_log()
                    &&& data.references@ == old(self).references_log()
                    &&& blobs_view(data.blobs@) == old(self).blobs_log()
                    &&& Some(data.execution_context@) == old(self).context_log()
                }
                &&& final(self).logged_count() == old(self).logged_count() + 1
            },
    {
        if !success || !self.enabled {
            return None;
        }
        let context = match &self.execution_context {
            Some(c) => c,
            None => {
                return None;
            },
        };
        if context_is_system_transaction(context) {
            return None;
        }
        let data = LoggedData {
            tx_id: self.tx_id,
            instructions: clone_instructions(&self.instructions),
            references: clone_node_ids(&self.references),
            blobs: clone_blobs(&self.blobs),
            execution_context: clone_context(context),
        };
        self.tx_id = self.tx_id + 1;
        Some(data)
    }

    /// An instruction starts; for an enabled logger it must be the next
    /// instruction of the transaction.
    pub fn instruction_start(&mut self, instruction: &InstructionV1)
        requires
            old(self).is_enabled() ==> {
                &&& old(self).instruction_count() < old(self).instructions_log().len()
                &&& old(self).instructions_log()[old(self).instruction_count() as int] == instruction@
            },
        ensures
            final(self).instruction_count() == if old(self).is_enabled() {
                old(self).instruction_count() + 1
            } else {
                old(self).instruction_count()
            },
            final(self).is_enabled() == old(self).is_enabled(),
            final(self).instructions_log() == old(self).instructions_log(),
            final(self).references_log() == old(self).references_log(),
            final(self).blobs_log() == old(self).blobs_log(),
            final(self).context_log() == old(self).context_log(),
            final(self).invoke_logs() == old(self).invoke_logs(),
            final(self).logged_count() == old(self).logged_count(),
    {
        if !self.enabled {
            return;
        }
        let count = self.instructions.len();
        assert(self.instructions_log().len() == count);
        self.instruction_index = self.instruction_index + 1;
    }

    /// A WASM invocation starts: an enabled logger opens a new call list.
    pub fn invoke_start(&mut self, data: &Vec<u8>)
        ensures
            final(self).invoke_logs() == if old(self).is_enabled() {
                old(self).invoke_logs().push((Seq::<(u8, Seq<Seq<u8>>)>::empty(), 0nat))
            } else {
                old(self).invoke_logs()
            },
            final(self).is_enabled() == old(self).is_enabled(),
            final(self).instructions_log() == old(self).instructions_log(),
            final(self).references_log() == old(self).references_log(),
            final(self).blobs_log() == old(self).blobs_log(),
            final(self).context_log() == old(self).context_log(),
            final(self).instruction_count() == old(self).instruction_count(),
            final(self).logged_count() == old(self).logged_count(),
    {
        if !self.enabled {
            return;
        }
        self.invoke_loggers.push(RadixRuntimeInvokeLogger::new(data));
        assert(self.invoke_logs() =~= old(self).invoke_logs().push(
            (Seq::<(u8, Seq<Seq<u8>>)>::empty(), 0nat),
        ));
    }

    /// The innermost WASM invocation ends with the given return value. A
    /// nested one is folded into its parent's last call; a top-level one
    /// becomes the arguments of the instruction that made it.
    pub fn invoke_end(&mut self, data: &Vec<u8>)
        requires
            old(self).is_enabled() ==> {
                let logs = old(self).invoke_logs();
                &&& logs.len() > 0
                &&& logs.len() > 1 ==> nested_end_fits(
                    logs[logs.len() - 2].0,
                    calls_finished(logs.last().0, data@),
                )
                &&& logs.len() == 1 ==> {
                    &&& 1 <= old(self).instruction_count() <= old(self).instructions_log().len()
                    &&& old(self).instructions_log()[old(self).instruction_count() - 1].is_call()
                }
            },
        ensures
            final(self).is_enabled() == old(self).is_enabled(),
            final(self).references_log() == old(self).references_log(),
            final(self).blobs_log() == old(self).blobs_log(),
            final(self).context_log() == old(self).context_log(),
            final(self).instruction_count() == old(self).instruction_count(),
            final(self).logged_count() == old(self).logged_count(),
            !old(self).is_enabled() ==> {
                &&& final(self).invoke_logs() == old(self).invoke_logs()
                &&& final(self).instructions_log() == old(self).instructions_log()
            },
            old(self).is_enabled() ==> ({
                let logs = old(self).invoke_logs();
                let finished = calls_finished(logs.last().0, data@);
                if logs.len() > 1 {
                    let parent = logs[logs.len() - 2];
                    let last = parent.0.last();
                    &&& final(self).invoke_logs() == logs.drop_last().update(
                        logs.len() - 2,
                        (
                            parent.0.update(
                                parent.0.len() - 1,
                                (last.0, args_with_nested(last.1, finished)),
                            ),
                            parent.1,
                        ),
                    )
                    &&& final(self).instructions_log() == old(self).instructions_log()
                } else {
                    let at = old(self).instruction_count() - 1;
                    &&& final(self).invoke_logs() == logs.drop_last()
                    &&& final(self).instructions_log() == old(self).instructions_log().update(
                        at,
                        old(self).instructions_log()[at].with_args(ManifestValueView::CallLog(finished)),
                    )
                }
            }),
    {
        if !self.enabled {
            return;
        }
        let ghost logs = self.invoke_logs();
        let ghost loggers = self.invoke_loggers@;
        let mut invoke_logger = match self.invoke_loggers.pop() {
            Some(l) => l,
            None => {
                return;
            },
        };
        assert(invoke_logger@ == logs.last());
        if self.invoke_loggers.len() > 0 {
            let parent_index = self.invoke_loggers.len() - 1;
            let mut parent = self.invoke_loggers.remove(parent_index);
            assert(parent@ == logs[logs.len() - 2]);
            parent.invoke_in_invoke_end(invoke_logger, data);
            self.invoke_loggers.push(parent);
            let ghost p = logs[logs.len() - 2];
            let ghost last = p.0.last();
            assert(self.invoke_logs() =~= logs.drop_last().update(
                logs.len() - 2,
                (
                    p.0.update(
                        p.0.len() - 1,
                        (last.0, args_with_nested(last.1, calls_finished(logs.last().0, data@))),
                    ),
                    p.1,
                ),
            ));
        } else {
            let calls = invoke_logger.finish(data);
            let args = ManifestValue::CallLog { calls: clone_call_log(calls) };
            let at = self.instruction_index - 1;
            let ghost before = self.instructions@;
            let mut instruction = self.instructions.remove(at);
            set_call_args(&mut instruction, args);
            self.instructions.insert(at, instruction);
            assert(self.instructions_log() =~= instructions_view(before).update(
                at as int,
                instructions_view(before)[at as int].with_args(
                    ManifestValueView::CallLog(calls_finished(logs.last().0, data@)),
                ),
            ));
            assert(self.invoke_logs() =~= logs.drop_last());
        }
    }

    /// A runtime call of the innermost invocation starts.
    pub fn runtime_call_start(&mut self, func_name: String, func_id: u8, data: Vec<Vec<u8>>)
        requires
            old(self).is_enabled() ==> {
                &&& old(self).invoke_logs().len() > 0
                &&& old(self).invoke_logs().last().1 < usize::MAX
            },
        ensures
            final(self).invoke_logs() == if old(self).is_enabled() {
                let logs = old(self).invoke_logs();
                let top = logs.last();
                logs.update(
                    logs.len() - 1,
                    (calls_after_call_start(top.0, top.1, func_id, byte_lists(data@)), top.1 + 1),
                )
            } else {
                old(self).invoke_logs()
            },
            final(self).is_enabled() == old(self).is_enabled(),
            final(self).instructions_log() == old(self).instructions_log(),
            final(self).references_log() == old(self).references_log(),
            final(self).blobs_log() == old(self).blobs_log(),
            final(self).context_log() == old(self).context_log(),
            final(self).instruction_count() == old(self).instruction_count(),
            final(self).logged_count() == old(self).logged_count(),
    {
        if !self.enabled {
            return;
        }
        let ghost logs = self.invoke_logs();
        let ghost args = byte_lists(data@);
        let top = self.invoke_loggers.len() - 1;
        let mut logger = self.invoke_loggers.remove(top);
        logger.runtime_call_start(func_name, func_id, data);
        self.invoke_loggers.push(logger);
        assert(self.invoke_logs() =~= logs.update(
            logs.len() - 1,
            (calls_after_call_start(logs.last().0, logs.last().1, func_id, args), logs.last().1 + 1),
        ));
    }

    /// A runtime call of the innermost invocation ends.
    pub fn runtime_call_end(&mut self, func_name: String, func_id: u8, data: Vec<Vec<u8>>)
        requires
            old(self).is_enabled() ==> {
                &&& old(self).invoke_logs().len() > 0
                &&& old(self).invoke_logs().last().1 > 0
            },
        ensures
            final(self).invoke_logs() == if old(self).is_enabled() {
                let logs = old(self).invoke_logs();
                let top = logs.last();
                logs.update(logs.len() - 1, (top.0, (top.1 - 1) as nat))
            } else {
                old(self).invoke_logs()
            },
            final(self).is_enabled() == old(self).is_enabled(),
            final(self).instructions_log() == old(self).instructions_log(),
            final(self).references_log() == old(self).references_log(),
            final(self).blobs_log() == old(self).blobs_log(),
            final(self).context_log() == old(self).context_log(),
            final(self).instruction_count() == old(self).instruction_count(),
            final(self).logged_count() == old(self).logged_count(),
    {
        if !self.enabled {
            return;
        }
        let ghost logs = self.invoke_logs();
        let top = self.invoke_loggers.len() - 1;
        let mut logger = self.invoke_loggers.remove(top);
        logger.runtime_call_end(func_name, func_id, data);
        self.invoke_loggers.push(logger);
        assert(self.invoke_logs() =~= logs.update(
            logs.len() - 1,
            (logs.last().0, (logs.last().1 - 1) as nat),
        ));
    }
}

/// What replaying a recorded call list does: the calls before the first
/// return marker are executed in order, and the last argument of that marker
/// is the invocation's output; without a marker there is no output.
pub open spec fn fuzz_plan_spec(calls: Seq<(u8, Seq<Seq<u8>>)>) -> (Seq<(u8, Seq<Seq<u8>>)>, Option<Seq<u8>>)
    decreases calls.len(),
{
    if calls.len() == 0 {
        (Seq::empty(), None)
    } else if calls[0].0 == RETURN_FUNC_ID {
        (Seq::empty(), Some(calls[0].1.last()))
    } else {
        let rest = fuzz_plan_spec(calls.drop_first());
        (seq![calls[0]] + rest.0, rest.1)
    }
}

/// Whether a recorded call list can be replayed: its first return marker,
/// if any, has an argument.
pub open spec fn fuzz_plan_valid(calls: Seq<(u8, Seq<Seq<u8>>)>) -> bool
    decreases calls.len(),
{
    if calls.len() == 0 {
        true
    } else if calls[0].0 == RETURN_FUNC_ID {
        calls[0].1.len() > 0
    } else {
        fuzz_plan_valid(calls.drop_first())
    }
}

proof fn lemma_fuzz_plan_step(calls: Seq<(u8, Seq<Seq<u8>>)>, i: int)
    requires
        0 <= i < calls.len(),
        forall|j: int| 0 <= j < i ==> calls[j].0 != RETURN_FUNC_ID,
    ensures
        fuzz_plan_spec(calls) == (calls.subrange(0, i) + fuzz_plan_spec(calls.skip(i)).0, fuzz_plan_spec(
            calls.skip(i),
        ).1),
        fuzz_plan_valid(calls) == fuzz_plan_valid(calls.skip(i)),
    decreases i,
{
    if i > 0 {
        let rest = calls.drop_first();
        assert forall|j: int| 0 <= j < i - 1 implies rest[j].0 != RETURN_FUNC_ID by {
            assert(rest[j] == calls[j + 1]);
        }
        lemma_fuzz_plan_step(rest, i - 1);
        assert(rest.skip(i - 1) =~= calls.skip(i));
        assert(seq![calls[0]] + rest.subrange(0, i - 1) =~= calls.subrange(0, i));
    } else {
        assert(calls.skip(0) =~= calls);
        assert(calls.subrange(0, 0) =~= Seq::<(u8, Seq<Seq<u8>>)>::empty());
    }
}

/// What a replay gives back of a recording: the top-level calls of an
/// invocation, none of them with the return marker's id, followed by the
/// return value that `finish` appends, are replayed call for call and give
/// back that return value.
pub proof fn lemma_replay_of_recording(calls: Seq<(u8, Seq<Seq<u8>>)>, data: Seq<u8>)
    requires
        forall|i: int| 0 <= i < calls.len() ==> (#[trigger] calls[i]).0 != RETURN_FUNC_ID,
    ensures
        fuzz_plan_valid(calls_finished(calls, data)),
        fuzz_plan_spec(calls_finished(calls, data)) == (calls, Some(data)),
    decreases calls.len(),
{
    let all = calls_finished(calls, data);
    if calls.len() == 0 {
        assert(all[0] == (RETURN_FUNC_ID, seq![data]));
        assert(seq![data].last() == data);
    } else {
        let rest = calls.drop_first();
        assert forall|i: int| 0 <= i < rest.len() implies (#[trigger] rest[i]).0 != RETURN_FUNC_ID by {
            assert(rest[i] == calls[i + 1]);
        }
        lemma_replay_of_recording(rest, data);
        assert(all.drop_first() =~= calls_finished(rest, data));
        assert(all[0] == calls[0]);
        assert(seq![calls[0]] + rest =~= calls);
    }
}

/// Splits a recorded call list for replay: the calls to execute, in order,
/// and the invocation's output (none when the list has no return marker).
pub fn fuzz_plan(instructions: &Vec<(u8, Vec<Vec<u8>>)>) -> (r: (Vec<(u8, Vec<Vec<u8>>)>, Option<Vec<u8>>))
    requires
        fuzz_plan_valid(call_log_view(instructions@)),
    ensures
        call_log_view(r.0@) == fuzz_plan_spec(call_log_view(instructions@)).0,
        (match r.1 {
            Some(out) => Some(out@),
            None => None,
        }) == fuzz_plan_spec(call_log_view(instructions@)).1,
{
    let ghost calls = call_log_view(instructions@);
    let mut to_execute: Vec<(u8, Vec<Vec<u8>>)> = Vec::new();
    let mut i: usize = 0;
    while i < instructions.len()
        invariant
            i <= instructions@.len(),
            calls == call_log_view(instructions@),
            fuzz_plan_valid(calls),
            forall|j: int| 0 <= j < i ==> calls[j].0 != RETURN_FUNC_ID,
            to_execute@.len() == i,
            call_log_view(to_execute@) == calls.subrange(0, i as int),
        decreases instructions@.len() - i,
    {
        let func_id = instructions[i].0;
        if func_id == RETURN_FUNC_ID {
            proof {
                lemma_fuzz_plan_step(calls, i as int);
                assert(calls.skip(i as int)[0] == calls[i as int]);
            }
            let args = &instructions[i].1;
            let out = copy_bytes(&args[args.len() - 1]);
            proof {
                assert(calls[i as int].1 == byte_lists(args@));
                assert(calls[i as int].1.last() == out@);
            }
            return (to_execute, Some(out));
        }
        let entry = (func_id, copy_byte_lists(&instructions[i].1));
        assert(calls[i as int] == (entry.0, byte_lists(entry.1@)));
        let ghost before = to_execute@;
        to_execute.push(entry);
        assert forall|k: int| 0 <= k < i implies call_log_view(to_execute@)[k] == calls[k] by {
            assert(to_execute@[k] == before[k]);
            assert(call_log_view(before)[k] == calls.subrange(0, i as int)[k]);
        }
        assert(call_log_view(to_execute@) =~= calls.subrange(0, i + 1));
        i = i + 1;
    }
    proof {
        if calls.len() > 0 {
            lemma_fuzz_plan_step(calls, calls.len() - 1);
            let last = calls.skip(calls.len() - 1);
            assert(last.len() == 1);
            assert(last[0] == calls.last());
            assert(last.drop_first() =~= Seq::<(u8, Seq<Seq<u8>>)>::empty());
            assert(fuzz_plan_spec(last.drop_first()) == (Seq::<(u8, Seq<Seq<u8>>)>::empty(), None::<Seq<u8>>));
            assert(fuzz_plan_spec(last).0 =~= seq![calls.last()]);
            assert(calls.subrange(0, calls.len() - 1) + seq![calls.last()] =~= calls);
        }
        assert(calls.subrange(0, calls.len() as int) =~= calls);
    }
    (to_execute, None)
}

} // verus!

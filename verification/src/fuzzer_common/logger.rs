use vstd::prelude::*;

use crate::bytes::{byte_lists, copy_byte_lists, copy_bytes};
use crate::fuzzer_engine::{inputs_view, RadixRuntimeFuzzerInput};
use crate::transaction_model::{
    blobs_view, clone_context, clone_instructions, clone_node_ids, context_is_system_transaction,
    instructions_view, is_system_transaction, ContextView, Executable, ExecutionContext,
    InstructionV1, InstructionView,
};
use crate::types::{HashBytes, NodeId};

verus! {

/// The calls that a runtime call at the given depth adds to a log: a call at
/// depth 0 is recorded, unless it is the first one (which only allocates the
/// invocation's argument buffer); nested calls are not.
pub open spec fn recorded_after_call_start(
    recorded: Seq<Seq<u8>>,
    first_pending: bool,
    depth: nat,
    data: Seq<u8>,
) -> Seq<Seq<u8>> {
    if depth == 0 && !first_pending {
        recorded.push(data)
    } else {
        recorded
    }
}

/// The state of an invocation log after a runtime call starts.
pub open spec fn after_call_start(log: (Seq<Seq<u8>>, bool, nat), data: Seq<u8>) -> (
    Seq<Seq<u8>>,
    bool,
    nat,
) {
    (recorded_after_call_start(log.0, log.1, log.2, data), log.1 && log.2 != 0, log.2 + 1)
}

/// The state of an invocation log after a runtime call ends.
pub open spec fn after_call_end(log: (Seq<Seq<u8>>, bool, nat)) -> (Seq<Seq<u8>>, bool, nat) {
    (log.0, log.1, (log.2 - 1) as nat)
}

/// A runtime call that starts and ends leaves the call depth as it was.
pub proof fn lemma_call_start_end_restores_depth(log: (Seq<Seq<u8>>, bool, nat), data: Seq<u8>)
    ensures
        after_call_end(after_call_start(log, data)).2 == log.2,
{
}

/// Calls made while another call runs are not recorded: from depth 0, past
/// the first call, a call that makes a nested call adds exactly its own data
/// to the log, and the depth comes back to 0.
pub proof fn lemma_nested_calls_not_recorded(
    log: (Seq<Seq<u8>>, bool, nat),
    outer: Seq<u8>,
    inner: Seq<u8>,
)
    requires
        log.2 == 0,
        !log.1,
    ensures
        ({
            let done = after_call_end(after_call_end(after_call_start(after_call_start(log, outer), inner)));
            &&& done.0 == log.0.push(outer)
            &&& done.2 == 0
        }),
{
}

/// The very first top-level call of an invocation is not recorded.
pub proof fn lemma_first_call_not_recorded(log: (Seq<Seq<u8>>, bool, nat), data: Seq<u8>)
    requires
        log.2 == 0,
        log.1,
    ensures
        after_call_start(log, data).0 == log.0,
        !after_call_start(log, data).1,
{
}

/// Records the top-level runtime calls of one WASM invocation.
pub struct RadixRuntimeInvokeLogger {
    instructions: Vec<Vec<u8>>,
    first_instruction: bool,
    depth: usize,
}

impl View for RadixRuntimeInvokeLogger {
    /// The recorded calls, whether the first top-level call is still to come,
    /// and the current call depth.
    type V = (Seq<Seq<u8>>, bool, nat);

    closed spec fn view(&self) -> (Seq<Seq<u8>>, bool, nat) {
        (byte_lists(self.instructions@), self.first_instruction, self.depth as nat)
    }
}

impl RadixRuntimeInvokeLogger {
    pub fn new() -> (r: Self)
        ensures
            r@ == (Seq::<Seq<u8>>::empty(), true, 0nat),
    {
        let r = Self { instructions: Vec::new(), first_instruction: true, depth: 0 };
        assert(byte_lists(r.instructions@) =~= Seq::<Seq<u8>>::empty());
        r
    }

    /// The recorded calls.
    pub fn instructions(&self) -> (r: &RadixRuntimeFuzzerInput)
        ensures
            byte_lists(r@) == self@.0,
    {
        &self.instructions
    }

    /// Records the invocation's return value.
    pub fn finish(&mut self, data: &Vec<u8>)
        ensures
            final(self)@ == (old(self)@.0.push(data@), old(self)@.1, old(self)@.2),
    {
        let ghost before = self.instructions@;
        self.instructions.push(copy_bytes(data));
        assert(byte_lists(self.instructions@) =~= byte_lists(before).push(data@));
    }

    /// A runtime call starts.
    pub fn runtime_call_start(&mut self, data: Vec<u8>)
        requires
            old(self)@.2 < usize::MAX,
        ensures
            final(self)@ == after_call_start(old(self)@, data@),
    {
        let ghost before = self.instructions@;
        if self.depth == 0 {
            if self.first_instruction {
                self.first_instruction = false;
            } else {
                self.instructions.push(data);
                assert(byte_lists(self.instructions@) =~= byte_lists(before).push(data@));
            }
        }
        self.depth = self.depth + 1;
    }

    /// A runtime call ends.
    pub fn runtime_call_end(&mut self, data: Option<Vec<u8>>)
        requires
            old(self)@.2 > 0,
        ensures
            final(self)@ == after_call_end(old(self)@),
    {
        self.depth = self.depth - 1;
    }
}

/// A successful transaction as the logger records it, to be encoded and
/// appended to the log file.
pub struct LoggedTransaction {
    pub instructions: Vec<InstructionV1>,
    pub references: Vec<NodeId>,
    pub blobs: Vec<(HashBytes, Vec<u8>)>,
    pub execution_context: ExecutionContext,
    pub invokes: Vec<RadixRuntimeFuzzerInput>,
}

/// What the end of a transaction asks of the log file.
pub struct LogFileAction {
    /// Remove an existing log file before writing (the first transaction).
    pub remove_existing_file: bool,
    /// Whether writes to the file are enabled.
    pub write: bool,
    /// The transaction to append.
    pub transaction: LoggedTransaction,
}

/// Records the transactions the engine runs, with the runtime calls of each
/// of their WASM invocations.
pub struct RadixRuntimeLogger {
    instructions: Vec<InstructionV1>,
    references: Vec<NodeId>,
    blobs: Vec<(HashBytes, Vec<u8>)>,
    execution_context: Option<ExecutionContext>,
    instruction_index: usize,
    invoke_loggers: Vec<RadixRuntimeInvokeLogger>,
    invoke_index: Vec<usize>,
    tx_id: usize,
    write: bool,
}

/// The states of a list of invocation loggers.
pub open spec fn loggers_view(v: Seq<RadixRuntimeInvokeLogger>) -> Seq<(Seq<Seq<u8>>, bool, nat)> {
    Seq::new(v.len(), |i: int| v[i]@)
}

/// The recorded calls of each of a list of invocation loggers.
pub open spec fn recorded_invokes(v: Seq<(Seq<Seq<u8>>, bool, nat)>) -> Seq<Seq<Seq<u8>>> {
    Seq::new(v.len(), |i: int| v[i].0)
}

impl RadixRuntimeLogger {
    /// The invocation stack only names existing invocation loggers.
    pub closed spec fn wf(&self) -> bool {
        forall|k: int|
            0 <= k < self.invoke_index@.len() ==> #[trigger] self.invoke_index@[k] < self.invoke_loggers@.len()
    }

    /// The instructions of the running transaction.
    pub closed spec fn instructions_log(&self) -> Seq<InstructionView> {
        instructions_view(self.instructions@)
    }

    /// The nodes the running transaction references.
    pub closed spec fn references_log(&self) -> Seq<NodeId> {
        self.references@
    }

    /// The blobs of the running transaction, by hash.
    pub closed spec fn blobs_log(&self) -> Seq<(HashBytes, Seq<u8>)> {
        blobs_view(self.blobs@)
    }

    /// The context of the running transaction.
    pub closed spec fn context_log(&self) -> Option<ContextView> {
        match self.execution_context {
            Some(c) => Some(c@),
            None => None,
        }
    }

    /// The number of instructions started so far.
    pub closed spec fn instruction_count(&self) -> nat {
        self.instruction_index as nat
    }

    /// The state of each invocation logger of the running transaction.
    pub closed spec fn invoke_logs(&self) -> Seq<(Seq<Seq<u8>>, bool, nat)> {
        loggers_view(self.invoke_loggers@)
    }

    /// The stack of running invocations, by the index of their logger.
    pub closed spec fn invoke_stack(&self) -> Seq<usize> {
        self.invoke_index@
    }

    /// The number of transactions written so far.
    pub closed spec fn written_count(&self) -> nat {
        self.tx_id as nat
    }

    /// Whether writes to the log file are enabled.
    pub closed spec fn writes_enabled(&self) -> bool {
        self.write
    }

    pub fn new() -> (r: Self)
        ensures
            r.instructions_log() == Seq::<InstructionView>::empty(),
            r.references_log() == Seq::<NodeId>::empty(),
            r.blobs_log() == Seq::<(HashBytes, Seq<u8>)>::empty(),
            r.context_log() is None,
            r.instruction_count() == 0,
            r.invoke_logs() == Seq::<(Seq<Seq<u8>>, bool, nat)>::empty(),
            r.invoke_stack() == Seq::<usize>::empty(),
            r.written_count() == 0,
            r.writes_enabled(),
            r.wf(),
    {
        let r = Self {
            instructions: Vec::new(),
            references: Vec::new(),
            blobs: Vec::new(),
            execution_context: None,
            instruction_index: 0,
            invoke_loggers: Vec::new(),
            invoke_index: Vec::new(),
            tx_id: 0,
            write: true,
        };
        assert(r.instructions_log() =~= Seq::<InstructionView>::empty());
        assert(r.blobs_log() =~= Seq::<(HashBytes, Seq<u8>)>::empty());
        assert(r.invoke_logs() =~= Seq::<(Seq<Seq<u8>>, bool, nat)>::empty());
        r
    }

    /// Whether writes to the log file are enabled.
    pub fn writes_to_file(&self) -> (r: bool)
        ensures
            r == self.writes_enabled(),
    {
        self.write
    }

    /// Stops writing to the log file.
    pub fn disable_write_to_file(&mut self)
        requires
            old(self).wf(),
        ensures
            final(self).wf(),
            !final(self).writes_enabled(),
            final(self).instructions_log() == old(self).instructions_log(),
            final(self).references_log() == old(self).references_log(),
            final(self).blobs_log() == old(self).blobs_log(),
            final(self).context_log() == old(self).context_log(),
            final(self).instruction_count() == old(self).instruction_count(),
            final(self).invoke_logs() == old(self).invoke_logs(),
            final(self).invoke_stack() == old(self).invoke_stack(),
            final(self).written_count() == old(self).written_count(),
    {
        self.write = false;
    }

    /// A transaction starts: the logger takes its (decoded) instructions, its
    /// references and context, and the hashes of its blobs, whose contents it
    /// drops.
    pub fn transaction_execution_start(&mut self, executable: &Executable, instructions: Vec<InstructionV1>)
        requires
            old(self).wf(),
        ensures
            final(self).wf(),
            final(self).instructions_log() == instructions_view(instructions@),
            final(self).references_log() == executable.references@,
            final(self).blobs_log() == Seq::new(
                executable.blobs@.len(),
                |i: int| (executable.blobs@[i].0, Seq::<u8>::empty()),
            ),
            final(self).context_log() == Some(executable.context@),
            final(self).instruction_count() == 0,
            final(self).invoke_logs() == Seq::<(Seq<Seq<u8>>, bool, nat)>::empty(),
            final(self).invoke_stack() == Seq::<usize>::empty(),
            final(self).written_count() == old(self).written_count(),
            final(self).writes_enabled() == old(self).writes_enabled(),
    {
        let mut blobs: Vec<(HashBytes, Vec<u8>)> = Vec::new();
        let mut i: usize = 0;
        while i < executable.blobs.len()
            invariant
                i <= executable.blobs@.len(),
                blobs@.len() == i,
                forall|k: int|
                    0 <= k < i ==> #[trigger] blobs@[k].0 == executable.blobs@[k].0 && blobs@[k].1@
                        == Seq::<u8>::empty(),
            decreases executable.blobs@.len() - i,
        {
            blobs.push((executable.blobs[i].0, Vec::new()));
            i = i + 1;
        }
        self.invoke_index = Vec::new();
        self.invoke_loggers = Vec::new();
        self.instructions = instructions;
        self.references = clone_node_ids(executable.references);
        self.blobs = blobs;
        self.execution_context = Some(clone_context(&executable.context));
        self.instruction_index = 0;
        assert(self.blobs_log() =~= Seq::new(
            executable.blobs@.len(),
            |i: int| (executable.blobs@[i].0, Seq::<u8>::empty()),
        ));
        assert(self.invoke_logs() =~= Seq::<(Seq<Seq<u8>>, bool, nat)>::empty());
    }

    /// A transaction ends. A failed transaction and a system transaction are
    /// not logged; a successful one is handed back to be written, and counted.
    pub fn transaction_execution_end(&mut self, success: bool) -> (r: Option<LogFileAction>)
        requires
            old(self).wf(),
            !success || old(self).instruction_count() == old(self).instructions_log().len(),
            old(self).context_log() is Some,
            old(self).written_count() < usize::MAX,
        ensures
            final(self).wf(),
            final(self).instructions_log() == old(self).instructions_log(),
            final(self).references_log() == old(self).references_log(),
            final(self).blobs_log() == old(self).blobs_log(),
            final(self).context_log() == old(self).context_log(),
            final(self).instruction_count() == old(self).instruction_count(),
            final(self).invoke_logs() == old(self).invoke_logs(),
            final(self).invoke_stack() == old(self).invoke_stack(),
            final(self).writes_enabled() == old(self).writes_enabled(),
            keeps_write_flag(old(self).writes_enabled(), final(self).writes_enabled(), r),
            (is_system_transaction(old(self).context_log().unwrap()) || !success) ==> {
                &&& r is None
                &&& final(self).written_count() == old(self).written_count()
            },
            (!is_system_transaction(old(self).context_log().unwrap()) && success) ==> {
                &&& r matches Some(action) && {
                    &&& action.remove_existing_file == (old(self).written_count() == 0)
                    &&& action.write == old(self).writes_enabled()
                    &&& instructions_view(action.transaction.instructions@) == old(self).instructions_log()
                    &&& action.transaction.references@ == old(self).references_log()
                    &&& blobs_view(action.transaction.blobs@) == old(self).blobs_log()
                    &&& Some(action.transaction.execution_context@) == old(self).context_log()
                    &&& inputs_view(action.transaction.invokes@) == recorded_invokes(old(self).invoke_logs())
                }
                &&& final(self).written_count() == old(self).written_count() + 1
            },
    {
        let context = match &self.execution_context {
            Some(c) => c,
            None => {
                return None;
            },
        };
        if context_is_system_transaction(context) {
            return None;
        }
        if !success {
            return None;
        }
        let mut invokes: Vec<RadixRuntimeFuzzerInput> = Vec::new();
        let mut i: usize = 0;
        while i < self.invoke_loggers.len()
            invariant
                i <= self.invoke_loggers@.len(),
                invokes@.len() == i,
                forall|k: int|
                    0 <= k < i ==> #[trigger] byte_lists(invokes@[k]@) == self.invoke_loggers@[k]@.0,
            decreases self.invoke_loggers@.len() - i,
        {
            let recorded = copy_byte_lists(self.invoke_loggers[i].instructions());
            invokes.push(recorded);
            i = i + 1;
        }
        assert(inputs_view(invokes@) =~= recorded_invokes(self.invoke_logs()));
        let action = LogFileAction {
            remove_existing_file: self.tx_id == 0,
            write: self.write,
            transaction: LoggedTransaction {
                instructions: clone_instructions(&self.instructions),
                references: clone_node_ids(&self.references),
                blobs: crate::transaction_model::clone_blobs(&self.blobs),
                execution_context: clone_context(context),
                invokes,
            },
        };
        self.tx_id = self.tx_id + 1;
        Some(action)
    }

    /// An instruction starts; it must be the next instruction of the
    /// transaction.
    pub fn instruction_start(&mut self, instruction: &InstructionV1)
        requires
            old(self).wf(),
            old(self).instruction_count() < old(self).instructions_log().len(),
            old(self).instructions_log()[old(self).instruction_count() as int] == instruction@,
        ensures
            final(self).wf(),
            final(self).instruction_count() == old(self).instruction_count() + 1,
            final(self).instructions_log() == old(self).instructions_log(),
            final(self).references_log() == old(self).references_log(),
            final(self).blobs_log() == old(self).blobs_log(),
            final(self).context_log() == old(self).context_log(),
            final(self).invoke_logs() == old(self).invoke_logs(),
            final(self).invoke_stack() == old(self).invoke_stack(),
            final(self).written_count() == old(self).written_count(),
            final(self).writes_enabled() == old(self).writes_enabled(),
    {
        let count = self.instructions.len();
        assert(self.instructions_log().len() == count);
        self.instruction_index = self.instruction_index + 1;
    }

    /// A WASM invocation starts: it gets a new logger, on top of the stack.
    pub fn invoke_start(&mut self, data: &Vec<u8>)
        requires
            old(self).wf(),
        ensures
            final(self).wf(),
            final(self).invoke_logs() == old(self).invoke_logs().push(
                (Seq::<Seq<u8>>::empty(), true, 0nat),
            ),
            final(self).invoke_stack() == old(self).invoke_stack().push(
                old(self).invoke_logs().len() as usize,
            ),
            final(self).instructions_log() == old(self).instructions_log(),
            final(self).references_log() == old(self).references_log(),
            final(self).blobs_log() == old(self).blobs_log(),
            final(self).context_log() == old(self).context_log(),
            final(self).instruction_count() == old(self).instruction_count(),
            final(self).written_count() == old(self).written_count(),
            final(self).writes_enabled() == old(self).writes_enabled(),
    {
        let index = self.invoke_loggers.len();
        self.invoke_loggers.push(RadixRuntimeInvokeLogger::new());
        self.invoke_index.push(index);
        assert(self.invoke_logs() =~= old(self).invoke_logs().push(
            (Seq::<Seq<u8>>::empty(), true, 0nat),
        ));
    }

    /// The WASM invocation on top of the stack ends with the given return
    /// value, which its logger records.
    pub fn invoke_end(&mut self, data: &Vec<u8>)
        requires
            old(self).wf(),
            old(self).invoke_stack().len() > 0,
        ensures
            final(self).wf(),
            ({
                let top = old(self).invoke_stack().last() as int;
                let log = old(self).invoke_logs()[top];
                &&& final(self).invoke_logs() == old(self).invoke_logs().update(
                    top,
                    (log.0.push(data@), log.1, log.2),
                )
                &&& final(self).invoke_stack() == old(self).invoke_stack().drop_last()
            }),
            final(self).instructions_log() == old(self).instructions_log(),
            final(self).references_log() == old(self).references_log(),
            final(self).blobs_log() == old(self).blobs_log(),
            final(self).context_log() == old(self).context_log(),
            final(self).instruction_count() == old(self).instruction_count(),
            final(self).written_count() == old(self).written_count(),
            final(self).writes_enabled() == old(self).writes_enabled(),
    {
        let top = self.invoke_index[self.invoke_index.len() - 1];
        let ghost before = self.invoke_loggers@;
        let mut logger = self.invoke_loggers.remove(top);
        logger.finish(data);
        self.invoke_loggers.insert(top, logger);
        self.invoke_index.pop();
        assert(self.invoke_logs() =~= old(self).invoke_logs().update(
            top as int,
            (old(self).invoke_logs()[top as int].0.push(data@), old(self).invoke_logs()[top as int].1, old(self).invoke_logs()[top as int].2),
        ));
    }

    /// A runtime call of the invocation on top of the stack starts.
    pub fn runtime_call_start(&mut self, data: Vec<u8>)
        requires
            old(self).wf(),
            old(self).invoke_stack().len() > 0,
            old(self).invoke_logs()[old(self).invoke_stack().last() as int].2 < usize::MAX,
        ensures
            final(self).wf(),
            final(self).invoke_logs() == old(self).invoke_logs().update(
                old(self).invoke_stack().last() as int,
                after_call_start(old(self).invoke_logs()[old(self).invoke_stack().last() as int], data@),
            ),
            final(self).invoke_stack() == old(self).invoke_stack(),
            final(self).instructions_log() == old(self).instructions_log(),
            final(self).references_log() == old(self).references_log(),
            final(self).blobs_log() == old(self).blobs_log(),
            final(self).context_log() == old(self).context_log(),
            final(self).instruction_count() == old(self).instruction_count(),
            final(self).written_count() == old(self).written_count(),
            final(self).writes_enabled() == old(self).writes_enabled(),
    {
        let top = self.invoke_index[self.invoke_index.len() - 1];
        let ghost data_view = data@;
        let mut logger = self.invoke_loggers.remove(top);
        logger.runtime_call_start(data);
        self.invoke_loggers.insert(top, logger);
        assert(self.invoke_logs() =~= old(self).invoke_logs().update(
            top as int,
            after_call_start(old(self).invoke_logs()[top as int], data_view),
        ));
    }

    /// A runtime call of the invocation on top of the stack ends.
    pub fn runtime_call_end(&mut self, data: Option<Vec<u8>>)
        requires
            old(self).wf(),
            old(self).invoke_stack().len() > 0,
            old(self).invoke_logs()[old(self).invoke_stack().last() as int].2 > 0,
        ensures
            final(self).wf(),
            final(self).invoke_logs() == old(self).invoke_logs().update(
                old(self).invoke_stack().last() as int,
                after_call_end(old(self).invoke_logs()[old(self).invoke_stack().last() as int]),
            ),
            final(self).invoke_stack() == old(self).invoke_stack(),
            final(self).instructions_log() == old(self).instructions_log(),
            final(self).references_log() == old(self).references_log(),
            final(self).blobs_log() == old(self).blobs_log(),
            final(self).context_log() == old(self).context_log(),
            final(self).instruction_count() == old(self).instruction_count(),
            final(self).written_count() == old(self).written_count(),
            final(self).writes_enabled() == old(self).writes_enabled(),
    {
        let top = self.invoke_index[self.invoke_index.len() - 1];
        let mut logger = self.invoke_loggers.remove(top);
        logger.runtime_call_end(data);
        self.invoke_loggers.insert(top, logger);
        assert(self.invoke_logs() =~= old(self).invoke_logs().update(
            top as int,
            after_call_end(old(self).invoke_logs()[top as int]),
        ));
    }
}

/// What a call on a logger does to its write flag: keeps it, and a
/// transaction it hands back to be written carries it.
pub open spec fn keeps_write_flag(before: bool, after: bool, action: Option<LogFileAction>) -> bool {
    &&& after == before
    &&& action matches Some(a) ==> a.write == before
}

/// Once writes are disabled, they stay disabled through any later calls (each
/// keeps the flag, as every method of the logger but the disabling one
/// ensures), and no transaction handed back asks to be written.
pub proof fn lemma_disabled_logger_never_writes(
    flags: Seq<bool>,
    actions: Seq<Option<LogFileAction>>,
)
    requires
        flags.len() == actions.len() + 1,
        !flags[0],
        forall|i: int|
            0 <= i < actions.len() ==> keeps_write_flag(flags[i], flags[i + 1], #[trigger] actions[i]),
    ensures
        forall|i: int| 0 <= i < flags.len() ==> !#[trigger] flags[i],
        forall|i: int| 0 <= i < actions.len() ==> (#[trigger] actions[i] matches Some(a) ==> !a.write),
{
    assert forall|i: int| 0 <= i < flags.len() implies !#[trigger] flags[i] by {
        lemma_flag_stays_off(flags, actions, i);
    }
    assert forall|i: int| 0 <= i < actions.len() implies (#[trigger] actions[i] matches Some(a)
        ==> !a.write) by {
        lemma_flag_stays_off(flags, actions, i);
    }
}

proof fn lemma_flag_stays_off(flags: Seq<bool>, actions: Seq<Option<LogFileAction>>, k: int)
    requires
        flags.len() == actions.len() + 1,
        !flags[0],
        forall|i: int|
            0 <= i < actions.len() ==> keeps_write_flag(flags[i], flags[i + 1], #[trigger] actions[i]),
        0 <= k < flags.len(),
    ensures
        !flags[k],
    decreases k,
{
    if k > 0 {
        lemma_flag_stays_off(flags, actions, k - 1);
        assert(keeps_write_flag(flags[k - 1], flags[k], actions[k - 1]));
    }
}

} // verus!

use vstd::prelude::*;

use crate::bytes::{byte_lists, copy_byte_lists};
use crate::types::HashBytes;
use crate::wasm_memory::{InvokeError, WasmRuntimeError};

verus! {

/// The recorded runtime calls of one invocation: each entry is the encoding
/// of one call, the last one its return value.
pub type RadixRuntimeFuzzerInput = Vec<Vec<u8>>;

/// The contents of a list of fuzzer inputs.
pub open spec fn inputs_view(v: Seq<RadixRuntimeFuzzerInput>) -> Seq<Seq<Seq<u8>>> {
    Seq::new(v.len(), |i: int| byte_lists(v[i]@))
}

/// The message of an invocation of a fuzzer instance that holds no calls.
pub open spec fn no_code_message(func_name: Seq<char>) -> Seq<char> {
    "No code to execute in "@ + func_name
}

/// The message of an invocation whose replayed calls failed.
pub open spec fn fuzzing_error_message(func_name: Seq<char>) -> Seq<char> {
    "Fuzzing error in "@ + func_name
}

/// A WASM instance that, in place of running code, replays recorded runtime
/// calls.
pub struct FuzzerInstance {
    code: Option<RadixRuntimeFuzzerInput>,
}

impl FuzzerInstance {
    /// The recorded calls the instance replays, if any.
    pub closed spec fn code(&self) -> Option<Seq<Seq<u8>>> {
        match self.code {
            Some(c) => Some(byte_lists(c@)),
            None => None,
        }
    }

    pub fn new(code: Option<RadixRuntimeFuzzerInput>) -> (r: Self)
        ensures
            r.code() == (match code {
                Some(c) => Some(byte_lists(c@)),
                None => None::<Seq<Seq<u8>>>,
            }),
    {
        Self { code }
    }

    /// First step of an invocation: the calls to replay, or the error that
    /// an instance without calls gives.
    pub fn code_to_execute(&self, func_name: &str) -> (r: Result<&RadixRuntimeFuzzerInput, InvokeError<WasmRuntimeError>>)
        ensures
            self.code() is None ==> (r matches Err(InvokeError::SelfError(WasmRuntimeError::ExecutionError(m)))
                && m@ == no_code_message(func_name@)),
            self.code() matches Some(c) ==> (r matches Ok(v) && byte_lists(v@) == c),
    {
        match &self.code {
            Some(c) => Ok(c),
            None => {
                let mut message = String::from_str("No code to execute in ");
                message.append(func_name);
                proof {
                    reveal_strlit("No code to execute in ");
                }
                Err(InvokeError::SelfError(WasmRuntimeError::ExecutionError(message)))
            },
        }
    }

    /// Last step of an invocation: the output of the replayed calls, or the
    /// error that a failed replay gives.
    pub fn invoke_result(func_name: &str, outcome: Result<Vec<u8>, ()>) -> (r: Result<Vec<u8>, InvokeError<WasmRuntimeError>>)
        ensures
            outcome matches Ok(out) ==> (r matches Ok(v) && v@ == out@),
            outcome is Err ==> (r matches Err(InvokeError::SelfError(WasmRuntimeError::ExecutionError(m)))
                && m@ == fuzzing_error_message(func_name@)),
    {
        match outcome {
            Ok(out) => Ok(out),
            Err(_) => {
                let mut message = String::from_str("Fuzzing error in ");
                message.append(func_name);
                proof {
                    reveal_strlit("Fuzzing error in ");
                }
                Err(InvokeError::SelfError(WasmRuntimeError::ExecutionError(message)))
            },
        }
    }
}

/// A WASM engine for fuzzing: it hands each new instance the next of a queue
/// of recorded invocations.
pub struct FuzzerEngine {
    /// The queued invocations, the next one last.
    invokes: Vec<RadixRuntimeFuzzerInput>,
}

impl FuzzerEngine {
    /// The queued invocations, in the order they are handed out.
    pub closed spec fn pending(&self) -> Seq<Seq<Seq<u8>>> {
        inputs_view(self.invokes@).reverse()
    }

    pub fn new() -> (r: Self)
        ensures
            r.pending() == Seq::<Seq<Seq<u8>>>::empty(),
    {
        let r = Self { invokes: Vec::new() };
        assert(r.pending() =~= Seq::<Seq<Seq<u8>>>::empty());
        r
    }

    /// Replaces the queue by the given invocations, in their order.
    pub fn set_invokes(&mut self, new_invokes: Vec<RadixRuntimeFuzzerInput>)
        ensures
            final(self).pending() == inputs_view(new_invokes@),
    {
        self.invokes.clear();
        let n = new_invokes.len();
        let mut i: usize = n;
        while i > 0
            invariant
                i <= n,
                n == new_invokes@.len(),
                self.invokes@.len() == n - i,
                forall|k: int|
                    0 <= k < n - i ==> #[trigger] byte_lists(self.invokes@[k]@) == byte_lists(
                        new_invokes@[n - 1 - k]@,
                    ),
            decreases i,
        {
            i = i - 1;
            let item = copy_byte_lists(&new_invokes[i]);
            self.invokes.push(item);
        }
        assert(self.pending() =~= inputs_view(new_invokes@));
    }

    /// Takes the next queued invocation, if any.
    pub fn get_invoke(&mut self) -> (r: Option<RadixRuntimeFuzzerInput>)
        ensures
            takes_next(
                old(self).pending(),
                final(self).pending(),
                match r {
                    Some(v) => Some(byte_lists(v@)),
                    None => None,
                },
            ),
            old(self).pending().len() == 0 ==> r is None && final(self).pending() == old(self).pending(),
            old(self).pending().len() > 0 ==> {
                &&& r matches Some(v) && byte_lists(v@) == old(self).pending()[0]
                &&& final(self).pending() == old(self).pending().drop_first()
            },
    {
        let ghost before = self.invokes@;
        let r = self.invokes.pop();
        proof {
            if before.len() > 0 {
                assert(inputs_view(self.invokes@) =~= inputs_view(before).drop_last());
                assert(self.pending() =~= inputs_view(before).reverse().drop_first());
            }
        }
        r
    }

    /// A new instance, holding the next queued invocation.
    pub fn instantiate(&mut self, code_hash: HashBytes, instrumented_code: &[u8]) -> (r: FuzzerInstance)
        ensures
            old(self).pending().len() == 0 ==> r.code() is None && final(self).pending() == old(
                self,
            ).pending(),
            old(self).pending().len() > 0 ==> {
                &&& r.code() == Some(old(self).pending()[0])
                &&& final(self).pending() == old(self).pending().drop_first()
            },
    {
        FuzzerInstance::new(self.get_invoke())
    }
}

/// The queue hands invocations out in the order they were set: after `i`
/// have been taken from a queue set to `v`, the rest is `v` without its first
/// `i`, so the next one taken is `v[i]`.
pub proof fn lemma_invokes_in_order(v: Seq<Seq<Seq<u8>>>, i: int)
    requires
        0 <= i < v.len(),
    ensures
        v.skip(i)[0] == v[i],
        v.skip(i).drop_first() == v.skip(i + 1),
{
    assert(v.skip(i).drop_first() =~= v.skip(i + 1));
}

/// What one `get_invoke` does to the queue: an empty queue gives nothing
/// and stays; else its first invocation is given and leaves.
pub open spec fn takes_next(
    before: Seq<Seq<Seq<u8>>>,
    after: Seq<Seq<Seq<u8>>>,
    out: Option<Seq<Seq<u8>>>,
) -> bool {
    if before.len() == 0 {
        out is None && after == before
    } else {
        out == Some(before[0]) && after == before.drop_first()
    }
}

/// After a queue is set to `v`, successive takes give `v[0]`, `v[1]`, ..., in
/// order, and nothing once all of them have been taken.
pub proof fn lemma_queue_hands_out_in_order(
    v: Seq<Seq<Seq<u8>>>,
    queues: Seq<Seq<Seq<Seq<u8>>>>,
    outs: Seq<Option<Seq<Seq<u8>>>>,
)
    requires
        queues.len() == outs.len() + 1,
        queues[0] == v,
        forall|i: int| 0 <= i < outs.len() ==> takes_next(queues[i], queues[i + 1], #[trigger] outs[i]),
    ensures
        forall|i: int|
            0 <= i < outs.len() ==> #[trigger] outs[i] == if i < v.len() {
                Some(v[i])
            } else {
                None::<Seq<Seq<u8>>>
            },
{
    assert forall|k: int| 0 <= k <= outs.len() implies #[trigger] queues[k] == if k <= v.len() {
        v.skip(k)
    } else {
        Seq::<Seq<Seq<u8>>>::empty()
    } by {
        lemma_queue_state(v, queues, outs, k);
    }
    assert forall|i: int| 0 <= i < outs.len() implies #[trigger] outs[i] == if i < v.len() {
        Some(v[i])
    } else {
        None::<Seq<Seq<u8>>>
    } by {
        assert(takes_next(queues[i], queues[i + 1], outs[i]));
        assert(queues[i] == queues[i]);
        if i < v.len() {
            assert(v.skip(i)[0] == v[i]);
        }
    }
}

proof fn lemma_queue_state(
    v: Seq<Seq<Seq<u8>>>,
    queues: Seq<Seq<Seq<Seq<u8>>>>,
    outs: Seq<Option<Seq<Seq<u8>>>>,
    k: int,
)
    requires
        queues.len() == outs.len() + 1,
        queues[0] == v,
        forall|i: int| 0 <= i < outs.len() ==> takes_next(queues[i], queues[i + 1], #[trigger] outs[i]),
        0 <= k <= outs.len(),
    ensures
        queues[k] == if k <= v.len() {
            v.skip(k)
        } else {
            Seq::<Seq<Seq<u8>>>::empty()
        },
    decreases k,
{
    if k == 0 {
        assert(v.skip(0) =~= v);
    } else {
        lemma_queue_state(v, queues, outs, k - 1);
        assert(takes_next(queues[k - 1], queues[k], outs[k - 1]));
        if k <= v.len() {
            assert(v.skip(k - 1).drop_first() =~= v.skip(k));
        } else if k - 1 == v.len() {
            assert(v.skip(k - 1) =~= Seq::<Seq<Seq<u8>>>::empty());
        }
    }
}

} // verus!

use vstd::prelude::*;

verus! {

/// What the fork server knows of its child between requests of the fuzzer.
#[derive(Debug, Clone, Copy, PartialEq, Eq)]
pub struct ForkServerState {
    /// Whether the last child stopped (rather than exited) and can resume.
    pub child_stopped: bool,
    /// The last child forked, if any.
    pub child_pid: Option<i32>,
}

/// What the fork server does on a request of the fuzzer.
#[derive(Debug, Clone, Copy, PartialEq, Eq)]
pub enum RequestAction {
    /// Wait for the stopped child, which the fuzzer killed, then fork anew.
    ReapThenFork { pid: i32 },
    /// Fork a new child.
    Fork,
    /// Resume the stopped child.
    Resume { pid: i32 },
    /// Nothing: a stopped child was never forked.
    Nothing,
}

/// How the child the fork server waited for ended the run.
#[derive(Debug, Clone, Copy, PartialEq, Eq)]
pub enum WaitOutcome {
    Stopped,
    Exited { code: i32 },
    Other,
}

/// The next state and action of a request: a stopped child that the fuzzer
/// killed is waited for, and is then no longer stopped; a child that is not
/// stopped is replaced by a new fork; a stopped child that was not killed is
/// resumed.
pub open spec fn request_step(state: ForkServerState, was_killed: bool) -> (
    ForkServerState,
    RequestAction,
) {
    if state.child_stopped && was_killed {
        (
            ForkServerState { child_stopped: false, ..state },
            match state.child_pid {
                Some(pid) => RequestAction::ReapThenFork { pid },
                None => RequestAction::Fork,
            },
        )
    } else if !state.child_stopped {
        (state, RequestAction::Fork)
    } else {
        match state.child_pid {
            Some(pid) => (ForkServerState { child_stopped: false, ..state }, RequestAction::Resume { pid }),
            None => (state, RequestAction::Nothing),
        }
    }
}

/// The fork server on a request of the fuzzer; `was_killed` is whether the
/// fuzzer's request word starts with a non-zero byte.
pub fn on_request(state: ForkServerState, was_killed: bool) -> (r: (ForkServerState, RequestAction))
    ensures
        r == request_step(state, was_killed),
{
    let mut next = state;
    let mut reap: Option<i32> = None;
    if next.child_stopped && was_killed {
        next.child_stopped = false;
        reap = next.child_pid;
    }
    if !next.child_stopped {
        match reap {
            Some(pid) => (next, RequestAction::ReapThenFork { pid }),
            None => (next, RequestAction::Fork),
        }
    } else {
        match next.child_pid {
            Some(pid) => {
                next.child_stopped = false;
                (next, RequestAction::Resume { pid })
            },
            None => (next, RequestAction::Nothing),
        }
    }
}

/// The fork server once it forked a child: the child is the one to report
/// and wait for.
pub fn on_forked(state: ForkServerState, child: i32) -> (r: ForkServerState)
    ensures
        r == (ForkServerState { child_pid: Some(child), ..state }),
{
    ForkServerState { child_pid: Some(child), ..state }
}

/// The fork server once its child ended the run: the status it reports to
/// the fuzzer (the exit code, or 0), and whether the child is now stopped.
pub fn on_wait(state: ForkServerState, outcome: WaitOutcome) -> (r: (ForkServerState, i32))
    ensures
        r == match outcome {
            WaitOutcome::Stopped => (ForkServerState { child_stopped: true, ..state }, 0i32),
            WaitOutcome::Exited { code } => (state, code),
            WaitOutcome::Other => (state, 0i32),
        },
{
    match outcome {
        WaitOutcome::Stopped => (ForkServerState { child_stopped: true, ..state }, 0),
        WaitOutcome::Exited { code } => (state, code),
        WaitOutcome::Other => (state, 0),
    }
}

/// Every request that acts leaves the child not stopped, and a stopped
/// child is resumed exactly when the fuzzer did not kill it: a killed one is
/// waited for and replaced.
pub proof fn lemma_request_outcomes(state: ForkServerState, was_killed: bool)
    ensures
        request_step(state, was_killed).1 != RequestAction::Nothing ==> !request_step(
            state,
            was_killed,
        ).0.child_stopped,
        (state.child_stopped && state.child_pid is Some) ==> (request_step(
            state,
            was_killed,
        ).1 is Resume <==> !was_killed),
        request_step(state, was_killed).0.child_pid == state.child_pid,
{
}

} // verus!

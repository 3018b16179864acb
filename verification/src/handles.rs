//! The handles of the monitoring threads.
//!
//! One thread reads what the controller writes, and one thread per agent
//! reads what that agent writes. Each owns a handle, through which it
//! forwards events to the supervisor. The controller's handle also shares the
//! stream that feeds the controller's input.

use crate::trusted::{lock_through_poison, share_lock};
use crate::wire::AgentIdx;
use std::sync::mpsc::Sender;
use std::sync::{Arc, Mutex, MutexGuard};
use vstd::prelude::*;

verus! {

/// How the standard streams of one process are wired to the supervisor: the
/// endpoint that feeds its input, and the endpoint that its output feeds.
#[derive(Copy, Clone, Debug, PartialEq, Eq, Structural)]
pub struct StdioMapping {
    pub stdin: usize,
    pub stdout: usize,
}

/// The handle of the thread that monitors the controller. `W` is the stream
/// that feeds the controller's input, `M` is what the supervisor is sent.
#[verifier::reject_recursive_types(W)]
#[verifier::reject_recursive_types(M)]
pub struct Controller<W, M> {
    stdin: Arc<Mutex<W>>,
    sender: Sender<M>,
    mapping: StdioMapping,
}

/// The handle of the thread that monitors one agent. `M` is what the
/// supervisor is sent.
#[verifier::reject_recursive_types(M)]
pub struct Agent<M> {
    idx: AgentIdx,
    sender: Sender<M>,
    mapping: StdioMapping,
}

impl<W, M> Controller<W, M> {
    /// The mapping that the handle was made with.
    pub closed spec fn spec_stdio_mapping(&self) -> StdioMapping {
        self.mapping
    }

    /// True where both handles hold the same lock, and so write to the same
    /// input stream.
    pub closed spec fn shares_stdin_with(&self, other: &Self) -> bool {
        self.stdin == other.stdin
    }

    /// Makes the handle. It takes the input stream over, behind a lock that
    /// all clones of the handle share.
    pub fn new(sender: Sender<M>, stdin_w: W, mapping: StdioMapping) -> (res: Self)
        ensures
            res.stdio_mapping() == mapping,
    {
        Controller { sender: sender, stdin: Arc::new(Mutex::new(stdin_w)), mapping: mapping }
    }

    /// Forwards `msg` to the supervisor. Where the supervisor is gone the
    /// message is dropped, and the caller is not told.
    pub fn send(&self, msg: M) -> (res: &Self)
        ensures
            *res == *self,
    {
        let _ = self.sender.send(msg);
        self
    }

    /// Waits until no other holder writes to the input stream, then grants
    /// access to it until the guard is dropped. A holder that panicked does
    /// not bar the stream to those that come after it.
    pub fn stdin(&mut self) -> (res: MutexGuard<'_, W>)
        ensures
            *final(self) == *old(self),
    {
        lock_through_poison(&self.stdin)
    }

    /// The mapping that the handle was made with.
    #[verifier::when_used_as_spec(spec_stdio_mapping)]
    pub fn stdio_mapping(&self) -> (res: StdioMapping)
        ensures
            res == self.stdio_mapping(),
    {
        self.mapping
    }
}

impl<W, M> Clone for Controller<W, M> {
    /// Another handle on the same supervisor and the same input stream.
    fn clone(&self) -> (res: Self)
        ensures
            res.stdio_mapping() == self.stdio_mapping(),
            res.shares_stdin_with(self),
    {
        Controller {
            sender: self.sender.clone(),
            stdin: share_lock(&self.stdin),
            mapping: self.mapping,
        }
    }
}

impl<M> Agent<M> {
    /// The index that the handle was made with.
    pub closed spec fn spec_idx(&self) -> AgentIdx {
        self.idx
    }

    /// The mapping that the handle was made with.
    pub closed spec fn spec_stdio_mapping(&self) -> StdioMapping {
        self.mapping
    }

    /// Makes the handle of the agent at `idx`.
    pub fn new(idx: AgentIdx, sender: Sender<M>, mapping: StdioMapping) -> (res: Self)
        ensures
            res.idx() == idx,
            res.stdio_mapping() == mapping,
    {
        Agent { idx: idx, sender: sender, mapping: mapping }
    }

    /// The index of the agent.
    #[verifier::when_used_as_spec(spec_idx)]
    pub fn idx(&self) -> (res: AgentIdx)
        ensures
            res == self.idx(),
    {
        self.idx
    }

    /// Forwards `msg` to the supervisor. Where the supervisor is gone the
    /// message is dropped, and the caller is not told.
    pub fn send(&self, msg: M) -> (res: &Self)
        ensures
            *res == *self,
    {
        let _ = self.sender.send(msg);
        self
    }

    /// The mapping that the handle was made with.
    #[verifier::when_used_as_spec(spec_stdio_mapping)]
    pub fn stdio_mapping(&self) -> (res: StdioMapping)
        ensures
            res == self.stdio_mapping(),
    {
        self.mapping
    }
}

impl<M> Clone for Agent<M> {
    /// Another handle of the same agent on the same supervisor.
    fn clone(&self) -> (res: Self)
        ensures
            res.idx() == self.idx(),
            res.stdio_mapping() == self.stdio_mapping(),
    {
        Agent { idx: self.idx, sender: self.sender.clone(), mapping: self.mapping }
    }
}

} // verus!

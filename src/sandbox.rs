//! The bookkeeping of the bridge between a script engine and the executor that
//! runs async tool calls, and the decisions of the loop that drives a script.
use vstd::prelude::*;
use std::collections::HashMap;
use crate::text::{owned, push_text};

verus! {

broadcast use vstd::std_specs::hash::group_hash_axioms;

/// An error at the boundary of an execution.
pub enum SandboxError {
    /// The engine failed: compile, run, a missing handle, a timeout.
    V8(String),
    /// A tool call, or the script's own promise, was rejected.
    Tool(String),
    /// A value could not cross between JSON and the engine.
    Serialization(String),
}

impl SandboxError {
    pub open spec fn text(&self) -> Seq<char> {
        match self {
            SandboxError::V8(m) => "v8 error: "@ + m@,
            SandboxError::Tool(m) => "tool call error: "@ + m@,
            SandboxError::Serialization(m) => "serialization error: "@ + m@,
        }
    }

    /// The error as text: its kind, then its message.
    pub fn to_string(&self) -> (r: String)
        ensures
            r@ == self.text(),
    {
        let (mut r, m) = match self {
            SandboxError::V8(m) => (owned("v8 error: "), m),
            SandboxError::Tool(m) => (owned("tool call error: "), m),
            SandboxError::Serialization(m) => (owned("serialization error: "), m),
        };
        push_text(&mut r, m.as_str());
        r
    }

    /// The engine error of a script that did not settle in time.
    pub fn timeout() -> (r: SandboxError)
        ensures
            r is V8 && r->V8_0@ == "execution timeout"@,
    {
        SandboxError::V8(owned("execution timeout"))
    }

    /// The engine error of a script whose pending calls can no longer complete.
    pub fn incomplete() -> (r: SandboxError)
        ensures
            r is V8 && r->V8_0@ == "execution incomplete"@,
    {
        SandboxError::V8(owned("execution incomplete"))
    }
}

/// The script as it is run: its body inside an async function that is called at
/// once, so that it may `await` and its result is a promise.
pub fn wrap_script(code: &str) -> (r: String)
    ensures
        r@ == "(async function() { "@ + code@ + " })()"@,
{
    let mut r = owned("(async function() { ");
    push_text(&mut r, code);
    push_text(&mut r, " })()");
    r
}

/// What one async tool call produced.
pub struct Completion<V> {
    pub id: u64,
    pub result: Result<V, String>,
}

/// How a resolver is settled.
pub enum Settlement<V> {
    Resolve(V),
    Reject(String),
}

/// The settlement that a completion calls for: resolve with its value, or reject
/// with its message.
pub fn settlement<V>(result: Result<V, String>) -> (r: Settlement<V>)
    ensures
        match result {
            Ok(v) => r == Settlement::<V>::Resolve(v),
            Err(m) => r == Settlement::<V>::Reject(m),
        },
{
    match result {
        Ok(v) => Settlement::Resolve(v),
        Err(m) => Settlement::Reject(m),
    }
}

/// The rejection message when a tool's result cannot be handed to the engine.
pub fn marshal_failure() -> (r: String)
    ensures
        r@ == "failed to serialize tool result"@,
{
    owned("failed to serialize tool result")
}

/// The per-execution state shared by the installed stubs and the driver loop:
/// the id allocator, the count of calls in flight, and the resolver of each.
pub struct BridgeState<H> {
    next_id: u64,
    pending: usize,
    resolvers: HashMap<u64, H>,
}

impl<H> BridgeState<H> {
    /// The id that the next call will get.
    pub closed spec fn next(&self) -> u64 {
        self.next_id
    }

    /// The number of calls in flight.
    pub closed spec fn in_flight(&self) -> nat {
        self.pending as nat
    }

    /// The resolver of each call in flight, by id.
    pub closed spec fn table(&self) -> Map<u64, H> {
        self.resolvers@
    }

    /// Ids are allocated from 1 upwards, every id in the table was allocated, and
    /// the count of calls in flight is the size of the table.
    pub closed spec fn wf(&self) -> bool {
        &&& self.next_id >= 1
        &&& self.resolvers@.dom().finite()
        &&& self.pending as nat == self.resolvers@.len()
        &&& forall|k: u64| #[trigger] self.resolvers@.contains_key(k) ==> 1 <= k < self.next_id
    }

    pub fn new() -> (r: BridgeState<H>)
        ensures
            r.wf(),
            r.next() == 1,
            r.in_flight() == 0,
            r.table() == Map::<u64, H>::empty(),
    {
        BridgeState { next_id: 1, pending: 0, resolvers: HashMap::new() }
    }

    pub fn pending(&self) -> (r: usize)
        ensures
            r as nat == self.in_flight(),
    {
        self.pending
    }

    /// Records the resolver of a new call and returns the call's id, a fresh one.
    /// Fails only when the id space or the counter is used up.
    pub fn register(&mut self, resolver: H) -> (r: Option<u64>)
        requires
            old(self).wf(),
        ensures
            final(self).wf(),
            match r {
                Some(id) => {
                    &&& id == old(self).next()
                    &&& !old(self).table().contains_key(id)
                    &&& final(self).next() == id + 1
                    &&& final(self).table() == old(self).table().insert(id, resolver)
                    &&& final(self).in_flight() == old(self).in_flight() + 1
                },
                None => {
                    &&& *final(self) == *old(self)
                    &&& (old(self).next() == u64::MAX || old(self).in_flight() == usize::MAX)
                },
            },
    {
        if self.next_id == u64::MAX || self.pending == usize::MAX {
            return None;
        }
        let id = self.next_id;
        self.next_id = self.next_id + 1;
        self.resolvers.insert(id, resolver);
        self.pending = self.pending + 1;
        proof {
            assert(!old(self).resolvers@.contains_key(id));
            assert(self.resolvers@.len() == old(self).resolvers@.len() + 1);
        }
        Some(id)
    }

    /// Takes out the resolver of call `id`, if that call is in flight. A taken
    /// resolver is gone from the table, so no call is settled twice.
    pub fn take(&mut self, id: u64) -> (r: Option<H>)
        requires
            old(self).wf(),
        ensures
            final(self).wf(),
            final(self).next() == old(self).next(),
            final(self).table() == old(self).table().remove(id),
            !final(self).table().contains_key(id),
            match r {
                Some(h) => {
                    &&& old(self).table().contains_key(id)
                    &&& h == old(self).table()[id]
                    &&& final(self).in_flight() + 1 == old(self).in_flight()
                },
                None => {
                    &&& !old(self).table().contains_key(id)
                    &&& final(self).in_flight() == old(self).in_flight()
                },
            },
    {
        let r = self.resolvers.remove(&id);
        match r {
            Some(_) => {
                proof {
                    assert(self.resolvers@.len() + 1 == old(self).resolvers@.len());
                }
                self.pending = self.pending - 1;
            },
            None => {
                assert(self.resolvers@ =~= old(self).resolvers@.remove(id));
            },
        }
        r
    }

    /// Drops every resolver still held: the calls in flight are abandoned.
    pub fn close(&mut self)
        requires
            old(self).wf(),
        ensures
            final(self).wf(),
            final(self).next() == old(self).next(),
            final(self).in_flight() == 0,
            final(self).table() == Map::<u64, H>::empty(),
    {
        self.resolvers.clear();
        self.pending = 0;
        assert(self.resolvers@.len() == 0);
    }
}

/// The state of the script's top-level promise after a microtask checkpoint.
pub enum PromiseState {
    Pending,
    Fulfilled,
    Rejected,
}

/// What the driver loop does after a checkpoint.
pub enum LoopStep {
    /// Return the promise's value.
    Finish,
    /// Return the promise's rejection as a tool error.
    Reject,
    /// Give up: the script has run past its time.
    Timeout,
    /// Wait briefly for the next completion.
    Wait,
}

/// The driver loop's decision after a checkpoint, `elapsed_ms` after it started.
pub fn after_checkpoint(state: PromiseState, elapsed_ms: u64, timeout_ms: u64) -> (r: LoopStep)
    ensures
        state is Fulfilled <==> r is Finish,
        state is Rejected <==> r is Reject,
        r is Timeout <==> (state is Pending && elapsed_ms > timeout_ms),
        r is Wait <==> (state is Pending && elapsed_ms <= timeout_ms),
{
    match state {
        PromiseState::Fulfilled => LoopStep::Finish,
        PromiseState::Rejected => LoopStep::Reject,
        PromiseState::Pending => if elapsed_ms > timeout_ms {
            LoopStep::Timeout
        } else {
            LoopStep::Wait
        },
    }
}

/// What a brief wait on the completion channel gave.
pub enum WaitOutcome {
    Received,
    Empty,
    Disconnected,
}

/// Whether the driver loop goes on after a wait; it ends, with
/// `SandboxError::incomplete`, once no completion can arrive any more.
pub fn after_wait(outcome: WaitOutcome) -> (r: bool)
    ensures
        r <==> !(outcome is Disconnected),
{
    match outcome {
        WaitOutcome::Disconnected => false,
        _ => true,
    }
}

/// How a stub handles a call.
pub enum Dispatch {
    /// Register a resolver and hand the call to the executor.
    Spawn,
    /// Call the sync caller in place.
    CallInPlace,
    /// Throw an engine error with this message.
    Throw(String),
}

/// How a stub handles a call, from whether the tool is async and which callers
/// it was installed with.
pub fn dispatch(is_async: bool, has_async_caller: bool, has_sync_caller: bool) -> (r: Dispatch)
    ensures
        is_async && has_async_caller ==> r is Spawn,
        is_async && !has_async_caller ==> r is Throw && r->Throw_0@ == "async caller missing"@,
        !is_async && has_sync_caller ==> r is CallInPlace,
        !is_async && !has_sync_caller ==> r is Throw && r->Throw_0@ == "sync caller missing"@,
{
    if is_async {
        if has_async_caller {
            Dispatch::Spawn
        } else {
            Dispatch::Throw(owned("async caller missing"))
        }
    } else if has_sync_caller {
        Dispatch::CallInPlace
    } else {
        Dispatch::Throw(owned("sync caller missing"))
    }
}

/// Two calls registered one after the other get distinct ids, and both stay in
/// flight until their completions are applied.
pub proof fn lemma_two_calls_distinct<H>(
    s0: BridgeState<H>,
    s1: BridgeState<H>,
    s2: BridgeState<H>,
    h1: H,
    h2: H,
    id1: u64,
    id2: u64,
)
    requires
        s0.wf(),
        id1 == s0.next(),
        s1.next() == id1 + 1,
        s1.table() == s0.table().insert(id1, h1),
        id2 == s1.next(),
        s2.table() == s1.table().insert(id2, h2),
    ensures
        id1 != id2,
        s2.table().contains_key(id1) && s2.table()[id1] == h1,
        s2.table().contains_key(id2) && s2.table()[id2] == h2,
{
}

} // verus!

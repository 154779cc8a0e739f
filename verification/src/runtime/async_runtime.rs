//! Computations that complete later: handles, their states and the
//! registry that keeps them.
//!
//! A handle is a number. The state that it names is kept by the runtime
//! that handed it out, and outlives the handle's place in the registry. A
//! state knows whether somebody waits to be woken; who that is, the host
//! knows, and it is told when to wake them.

use crate::runtime::error::{RuntimeError, RuntimeErrorView};
use crate::runtime::memory::{value_result};
use crate::runtime::value::{Value, ValueView};
use crate::runtime::keys::keys_of;
use std::collections::HashMap;
use vstd::prelude::*;
use vstd::string::StringExecFns;

verus! {

broadcast use vstd::std_specs::hash::group_hash_axioms;

/// The name of a computation that completes later.
#[derive(Debug, Clone, Copy, PartialEq, Eq, Structural)]
pub struct AsyncHandle {
    pub id: u64,
}

/// How far a computation has come.
#[derive(Debug, Clone, Copy, PartialEq, Eq, Structural)]
pub enum AsyncStatus {
    Pending,
    Running,
    Completed,
    Failed,
}

/// What the state of a computation holds.
pub struct AsyncStateView {
    pub status: AsyncStatus,
    pub result: Option<ValueView>,
    pub error: Option<RuntimeErrorView>,
    pub waker: bool,
}

/// The state of a computation: how far it has come, its result or its
/// error once it has ended, and whether somebody waits to be woken when it
/// ends.
#[derive(Debug)]
pub struct AsyncState {
    pub status: AsyncStatus,
    pub result: Option<Value>,
    pub error: Option<RuntimeError>,
    pub waker: bool,
}

impl View for AsyncState {
    type V = AsyncStateView;

    open spec fn view(&self) -> AsyncStateView {
        AsyncStateView {
            status: self.status,
            result: match self.result {
                Some(v) => Some(v@),
                None => None,
            },
            error: match self.error {
                Some(e) => Some(e@),
                None => None,
            },
            waker: self.waker,
        }
    }
}

impl DeepView for AsyncState {
    type V = AsyncStateView;

    open spec fn deep_view(&self) -> AsyncStateView {
        self@
    }
}

/// What polling a computation gives.
#[derive(Debug)]
pub enum PollOutcome {
    /// The computation has ended, with this result or error.
    Ready(Result<Value, RuntimeError>),
    /// The computation has not ended. The caller is now on record as
    /// waiting.
    Pending,
}

/// What a registry holds: the id of the next handle, the state of every
/// handle that was handed out, by rising id, and the ids that are
/// registered.
pub struct AsyncView {
    pub next_id: u64,
    pub states: Seq<AsyncStateView>,
    pub tasks: Map<u64, AsyncHandle>,
}

/// The registry that has handed out no handle: its first handle will have
/// the id 1.
pub open spec fn empty_registry() -> AsyncView {
    AsyncView { next_id: 1, states: Seq::empty(), tasks: Map::empty() }
}

/// The state of a computation that has just begun.
pub open spec fn fresh_state() -> AsyncStateView {
    AsyncStateView { status: AsyncStatus::Pending, result: None, error: None, waker: false }
}

/// Whether the registry handed out the handle `id`.
pub open spec fn knows(a: AsyncView, id: u64) -> bool {
    1 <= id && id - 1 < a.states.len()
}

/// The state that `id` names. A handle that the registry never handed out
/// names a computation that has not ended and never will.
pub open spec fn state_of(a: AsyncView, id: u64) -> AsyncStateView {
    if knows(a, id) {
        a.states[id - 1]
    } else {
        fresh_state()
    }
}

/// Whether a status is one of the two that end a computation.
pub open spec fn is_terminal(status: AsyncStatus) -> bool {
    status == AsyncStatus::Completed || status == AsyncStatus::Failed
}

/// The registry with the state of `id` replaced.
pub open spec fn with_state(a: AsyncView, id: u64, state: AsyncStateView) -> AsyncView {
    AsyncView { states: a.states.update(id - 1, state), ..a }
}

/// An `InvalidOperation` with the given message.
pub open spec fn invalid(message: Seq<char>) -> RuntimeErrorView {
    RuntimeErrorView::InvalidOperation(message)
}

/// What beginning a computation gives: a handle with the next id, and the
/// registry with a fresh state under it.
pub open spec fn spec_begin(a: AsyncView) -> (AsyncView, AsyncHandle) {
    (
        AsyncView {
            next_id: (a.next_id + 1) as u64,
            states: a.states.push(fresh_state()),
            tasks: a.tasks.insert(a.next_id, AsyncHandle { id: a.next_id }),
        },
        AsyncHandle { id: a.next_id },
    )
}

/// What ending the computation `id` gives, where `state` is what it ends
/// in: the registry with that state, and whether somebody is to be woken;
/// or the error `refusal` where the computation has ended already, and the
/// error for a handle that the registry never handed out.
pub open spec fn spec_end(
    a: AsyncView,
    id: u64,
    state: AsyncStateView,
    refusal: Seq<char>,
) -> (AsyncView, Result<bool, RuntimeErrorView>) {
    if !knows(a, id) {
        (a, Err(invalid("Unknown async handle"@)))
    } else if is_terminal(a.states[id - 1].status) {
        (a, Err(invalid(refusal)))
    } else {
        (with_state(a, id, state), Ok(a.states[id - 1].waker))
    }
}

/// What completing the computation `id` with `value` gives.
pub open spec fn spec_complete(a: AsyncView, id: u64, value: ValueView) -> (
    AsyncView,
    Result<bool, RuntimeErrorView>,
) {
    spec_end(
        a,
        id,
        AsyncStateView {
            status: AsyncStatus::Completed,
            result: Some(value),
            error: state_of(a, id).error,
            waker: false,
        },
        "Cannot complete async operation that is already completed"@,
    )
}

/// What failing the computation `id` with `error` gives.
pub open spec fn spec_fail(a: AsyncView, id: u64, error: RuntimeErrorView) -> (
    AsyncView,
    Result<bool, RuntimeErrorView>,
) {
    spec_end(
        a,
        id,
        AsyncStateView {
            status: AsyncStatus::Failed,
            result: state_of(a, id).result,
            error: Some(error),
            waker: false,
        },
        "Cannot fail async operation that is already completed"@,
    )
}

/// What asking for the result of `id` gives, without waiting: the result
/// of a completed computation, the error of a failed one, and nothing yet
/// of one that has not ended.
pub open spec fn spec_result(a: AsyncView, id: u64) -> Result<Option<ValueView>, RuntimeErrorView> {
    let state = state_of(a, id);
    match state.status {
        AsyncStatus::Completed => Ok(state.result),
        AsyncStatus::Failed => match state.error {
            Some(e) => Err(e),
            None => Err(invalid("Async operation failed"@)),
        },
        _ => Ok(None),
    }
}

/// What polling `id` gives: the result or the error of a computation that
/// has ended; of one that has not, nothing, and the registry with the
/// caller on record as waiting.
pub open spec fn spec_poll(a: AsyncView, id: u64) -> (
    AsyncView,
    Option<Result<ValueView, RuntimeErrorView>>,
) {
    let state = state_of(a, id);
    match state.status {
        AsyncStatus::Completed => match state.result {
            Some(v) => (a, Some(Ok(v))),
            None => (a, Some(Err(invalid("Async operation completed without result"@)))),
        },
        AsyncStatus::Failed => match state.error {
            Some(e) => (a, Some(Err(e))),
            None => (a, Some(Err(invalid("Async operation failed"@)))),
        },
        _ => if knows(a, id) {
            (with_state(a, id, AsyncStateView { waker: true, ..state }), None)
        } else {
            (a, None)
        },
    }
}

/// The registered handles whose computations have not ended.
pub open spec fn unfinished(a: AsyncView) -> Map<u64, AsyncHandle> {
    Map::new(
        |id: u64| a.tasks.contains_key(id) && !is_terminal(state_of(a, id).status),
        |id: u64| a.tasks[id],
    )
}

/// The registered handles but those among `done` whose computations have
/// ended.
pub open spec fn swept(a: AsyncView, done: Set<u64>) -> Map<u64, AsyncHandle> {
    Map::new(
        |id: u64|
            a.tasks.contains_key(id) && !(done.contains(id) && is_terminal(
                state_of(a, id).status,
            )),
        |id: u64| a.tasks[id],
    )
}

/// The registry of the computations that complete later.
#[derive(Debug)]
pub struct AsyncRuntime {
    next_id: u64,
    states: Vec<AsyncState>,
    tasks: HashMap<u64, AsyncHandle>,
}

impl View for AsyncRuntime {
    type V = AsyncView;

    closed spec fn view(&self) -> AsyncView {
        AsyncView { next_id: self.next_id, states: self.states.deep_view(), tasks: self.tasks@ }
    }
}

/// Whether a registry is as its operations leave it: the next id is one
/// more than the number of handles handed out.
pub open spec fn registry_ok(a: AsyncView) -> bool {
    a.next_id == a.states.len() + 1
}

/// What `get_result` gives, by views.
pub open spec fn optional_result(r: Result<Option<Value>, RuntimeError>) -> Result<
    Option<ValueView>,
    RuntimeErrorView,
> {
    match r {
        Ok(Some(v)) => Ok(Some(v@)),
        Ok(None) => Ok(None),
        Err(e) => Err(e@),
    }
}

/// What ending a computation gives, with the error by its view.
pub open spec fn wake_result(r: Result<bool, RuntimeError>) -> Result<bool, RuntimeErrorView> {
    match r {
        Ok(wake) => Ok(wake),
        Err(e) => Err(e@),
    }
}

/// What polling gives, by views.
pub open spec fn poll_view(p: PollOutcome) -> Option<Result<ValueView, RuntimeErrorView>> {
    match p {
        PollOutcome::Ready(r) => Some(value_result(r)),
        PollOutcome::Pending => None,
    }
}

/// An `InvalidOperation` with the given message.
fn invalid_operation(message: &str) -> (error: RuntimeError)
    ensures
        error@ == invalid(message@),
{
    RuntimeError::InvalidOperation(String::from_str(message))
}

/// A copy of an optional value.
fn copy_value(value: &Option<Value>) -> (copy: Option<Value>)
    ensures
        match (*value, copy) {
            (Some(a), Some(b)) => a@ == b@,
            (None, None) => true,
            _ => false,
        },
{
    match value {
        Some(v) => Some(v.clone()),
        None => None,
    }
}

/// A copy of an optional error.
fn copy_error(error: &Option<RuntimeError>) -> (copy: Option<RuntimeError>)
    ensures
        match (*error, copy) {
            (Some(a), Some(b)) => a@ == b@,
            (None, None) => true,
            _ => false,
        },
{
    match error {
        Some(e) => Some(e.clone()),
        None => None,
    }
}

impl AsyncRuntime {
    /// Whether the registry is as its operations leave it.
    pub open spec fn wf(&self) -> bool {
        registry_ok(self@)
    }

    /// The registry that has handed out no handle. Its first handle will
    /// have the id 1.
    pub fn new() -> (runtime: AsyncRuntime)
        ensures
            runtime.wf(),
            runtime@ == empty_registry(),
    {
        let runtime = AsyncRuntime { next_id: 1, states: Vec::new(), tasks: HashMap::new() };
        assert(runtime.states.deep_view() =~= Seq::empty());
        runtime
    }

    /// Whether another handle can be handed out: the ids are not used up.
    pub fn can_begin(&self) -> (yes: bool)
        ensures
            yes == (self@.next_id < u64::MAX),
    {
        self.next_id < u64::MAX
    }

    /// Begins a computation and hands out its handle.
    pub fn begin_async(&mut self) -> (handle: AsyncHandle)
        requires
            old(self).wf(),
            old(self)@.next_id < u64::MAX,
        ensures
            final(self).wf(),
            (final(self)@, handle) == spec_begin(old(self)@),
    {
        let id = self.next_id;
        self.next_id = id + 1;
        let ghost before = self.states.deep_view();
        self.states.push(
            AsyncState { status: AsyncStatus::Pending, result: None, error: None, waker: false },
        );
        assert(self.states.deep_view() =~= before.push(fresh_state()));
        self.tasks.insert(id, AsyncHandle { id });
        AsyncHandle { id }
    }

    /// The position of the state of `id`, where the registry handed the
    /// handle out.
    fn slot(&self, id: u64) -> (found: Option<usize>)
        ensures
            match found {
                Some(i) => knows(self@, id) && i == id - 1 && i < self.states.len(),
                None => !knows(self@, id),
            },
    {
        if id >= 1 && id - 1 < self.states.len() as u64 {
            Some((id - 1) as usize)
        } else {
            None
        }
    }

    /// Puts `state` in the place of the state at position `i`.
    fn put_state(&mut self, i: usize, state: AsyncState)
        requires
            i < old(self).states.len(),
        ensures
            final(self)@ == (AsyncView {
                states: old(self)@.states.update(i as int, state@),
                ..old(self)@
            }),
    {
        self.states.set(i, state);
        assert(self.states.deep_view() =~= old(self).states.deep_view().update(i as int, state@));
    }

    /// Completes the computation of `handle` with `result`. Where it
    /// succeeds it says whether somebody waits to be woken, who is then no
    /// longer on record.
    pub fn complete_async(&mut self, handle: &AsyncHandle, result: Value) -> (r: Result<
        bool,
        RuntimeError,
    >)
        requires
            old(self).wf(),
        ensures
            final(self).wf(),
            (final(self)@, wake_result(r)) == spec_complete(old(self)@, handle.id, result@),
    {
        match self.slot(handle.id) {
            None => Err(invalid_operation("Unknown async handle")),
            Some(i) => {
                assert(self@.states[i as int] == self.states[i as int]@);
                let status = self.states[i].status;
                if status == AsyncStatus::Completed || status == AsyncStatus::Failed {
                    Err(
                        invalid_operation(
                            "Cannot complete async operation that is already completed",
                        ),
                    )
                } else {
                    let wake = self.states[i].waker;
                    let error = copy_error(&self.states[i].error);
                    self.put_state(
                        i,
                        AsyncState {
                            status: AsyncStatus::Completed,
                            result: Some(result),
                            error,
                            waker: false,
                        },
                    );
                    Ok(wake)
                }
            },
        }
    }

    /// Fails the computation of `handle` with `error`. Where it succeeds it
    /// says whether somebody waits to be woken, who is then no longer on
    /// record.
    pub fn fail_async(&mut self, handle: &AsyncHandle, error: RuntimeError) -> (r: Result<
        bool,
        RuntimeError,
    >)
        requires
            old(self).wf(),
        ensures
            final(self).wf(),
            (final(self)@, wake_result(r)) == spec_fail(old(self)@, handle.id, error@),
    {
        match self.slot(handle.id) {
            None => Err(invalid_operation("Unknown async handle")),
            Some(i) => {
                assert(self@.states[i as int] == self.states[i as int]@);
                let status = self.states[i].status;
                if status == AsyncStatus::Completed || status == AsyncStatus::Failed {
                    Err(invalid_operation("Cannot fail async operation that is already completed"))
                } else {
                    let wake = self.states[i].waker;
                    let result = copy_value(&self.states[i].result);
                    self.put_state(
                        i,
                        AsyncState {
                            status: AsyncStatus::Failed,
                            result,
                            error: Some(error),
                            waker: false,
                        },
                    );
                    Ok(wake)
                }
            },
        }
    }

    /// How far the computation of `handle` has come.
    pub fn get_status(&self, handle: &AsyncHandle) -> (status: AsyncStatus)
        ensures
            status == state_of(self@, handle.id).status,
    {
        match self.slot(handle.id) {
            None => AsyncStatus::Pending,
            Some(i) => {
                assert(self@.states[i as int] == self.states[i as int]@);
                self.states[i].status
            },
        }
    }

    /// The result of the computation of `handle`, without waiting for it.
    pub fn get_result(&self, handle: &AsyncHandle) -> (r: Result<Option<Value>, RuntimeError>)
        ensures
            optional_result(r) == spec_result(self@, handle.id),
    {
        match self.slot(handle.id) {
            None => Ok(None),
            Some(i) => {
                assert(self@.states[i as int] == self.states[i as int]@);
                match self.states[i].status {
                    AsyncStatus::Completed => Ok(copy_value(&self.states[i].result)),
                    AsyncStatus::Failed => match &self.states[i].error {
                        Some(e) => Err(e.clone()),
                        None => Err(invalid_operation("Async operation failed")),
                    },
                    _ => Ok(None),
                }
            },
        }
    }

    /// Polls the computation of `handle`: its result or error if it has
    /// ended; else the caller goes on record as waiting.
    pub fn poll_async(&mut self, handle: &AsyncHandle) -> (outcome: PollOutcome)
        requires
            old(self).wf(),
        ensures
            final(self).wf(),
            (final(self)@, poll_view(outcome)) == spec_poll(old(self)@, handle.id),
    {
        match self.slot(handle.id) {
            None => PollOutcome::Pending,
            Some(i) => {
                assert(self@.states[i as int] == self.states[i as int]@);
                match self.states[i].status {
                    AsyncStatus::Completed => match &self.states[i].result {
                        Some(v) => PollOutcome::Ready(Ok(v.clone())),
                        None => PollOutcome::Ready(
                            Err(invalid_operation("Async operation completed without result")),
                        ),
                    },
                    AsyncStatus::Failed => match &self.states[i].error {
                        Some(e) => PollOutcome::Ready(Err(e.clone())),
                        None => PollOutcome::Ready(Err(invalid_operation("Async operation failed"))),
                    },
                    status => {
                        let result = copy_value(&self.states[i].result);
                        let error = copy_error(&self.states[i].error);
                        self.put_state(i, AsyncState { status, result, error, waker: true });
                        PollOutcome::Pending
                    },
                }
            },
        }
    }

    /// Takes the computations that have ended out of the registry. Their
    /// states stay with their handles.
    pub fn cleanup_completed(&mut self)
        requires
            old(self).wf(),
        ensures
            final(self).wf(),
            final(self)@ == (AsyncView { tasks: unfinished(old(self)@), ..old(self)@ }),
    {
        let ghost start = self@;
        let ids = keys_of(&self.tasks);
        let mut i: usize = 0;
        assert(ids@.take(0).to_set() =~= Set::empty());
        assert(self@.tasks =~= swept(start, Set::empty()));
        while i < ids.len()
            invariant
                i <= ids.len(),
                start == old(self)@,
                self@ == (AsyncView {
                    tasks: swept(start, ids@.take(i as int).to_set()),
                    ..start
                }),
            decreases ids.len() - i,
        {
            let id = ids[i];
            let status = self.get_status(&AsyncHandle { id });
            assert(status == state_of(start, id).status);
            if status == AsyncStatus::Completed || status == AsyncStatus::Failed {
                self.tasks.remove(&id);
            }
            proof {
                let before = ids@.take(i as int).to_set();
                let after = ids@.take(i + 1).to_set();
                assert(ids@.take(i + 1) =~= ids@.take(i as int).push(id));
                ids@.take(i as int).lemma_push_to_set_commute(id);
                assert(self@.tasks =~= swept(start, after));
            }
            i += 1;
        }
        assert(ids@.take(i as int) =~= ids@);
        assert(self@.tasks =~= unfinished(start));
    }

    /// How many computations are registered.
    pub fn task_count(&self) -> (count: usize)
        ensures
            count == self@.tasks.dom().len(),
    {
        self.tasks.len()
    }

    /// Whether the computation `id` is registered.
    pub fn is_registered(&self, id: u64) -> (yes: bool)
        ensures
            yes == self@.tasks.contains_key(id),
    {
        self.tasks.contains_key(&id)
    }

    /// What waits for the computation of `handle`.
    pub fn await_async(&self, handle: &AsyncHandle) -> (awaiter: AsyncAwaiter)
        ensures
            awaiter.handle == *handle,
    {
        AsyncAwaiter { handle: *handle }
    }
}

/// What waits for a computation to end.
#[derive(Debug, Clone, Copy, PartialEq, Eq, Structural)]
pub struct AsyncAwaiter {
    pub handle: AsyncHandle,
}

impl AsyncAwaiter {
    /// Polls the computation in the registry that handed its handle out.
    pub fn poll(&self, runtime: &mut AsyncRuntime) -> (outcome: PollOutcome)
        requires
            old(runtime).wf(),
        ensures
            final(runtime).wf(),
            (final(runtime)@, poll_view(outcome)) == spec_poll(old(runtime)@, self.handle.id),
    {
        runtime.poll_async(&self.handle)
    }
}

/// The side of a computation that ends it.
#[derive(Debug, Clone, Copy, PartialEq, Eq, Structural)]
pub struct AsyncPromise {
    pub handle: AsyncHandle,
}

/// What resolving or rejecting a promise gives, where `state` is what the
/// computation ends in: as ending the computation, but refused as well
/// where the computation is running.
pub open spec fn spec_settle(a: AsyncView, id: u64, state: AsyncStateView) -> (
    AsyncView,
    Result<bool, RuntimeErrorView>,
) {
    if !knows(a, id) {
        (a, Err(invalid("Unknown async handle"@)))
    } else if a.states[id - 1].status != AsyncStatus::Pending {
        (a, Err(invalid("Promise already resolved"@)))
    } else {
        (with_state(a, id, state), Ok(a.states[id - 1].waker))
    }
}

impl AsyncPromise {
    /// The promise for the computation of `handle`.
    pub fn new(handle: AsyncHandle) -> (promise: AsyncPromise)
        ensures
            promise.handle == handle,
    {
        AsyncPromise { handle }
    }

    /// Completes the computation with `value`, if it is pending. Where it
    /// succeeds it says whether somebody waits to be woken.
    pub fn resolve(&self, runtime: &mut AsyncRuntime, value: Value) -> (r: Result<
        bool,
        RuntimeError,
    >)
        requires
            old(runtime).wf(),
        ensures
            final(runtime).wf(),
            (final(runtime)@, wake_result(r)) == spec_settle(
                old(runtime)@,
                self.handle.id,
                AsyncStateView {
                    status: AsyncStatus::Completed,
                    result: Some(value@),
                    error: state_of(old(runtime)@, self.handle.id).error,
                    waker: false,
                },
            ),
    {
        if runtime.get_status(&self.handle) != AsyncStatus::Pending {
            match runtime.slot(self.handle.id) {
                None => Err(invalid_operation("Unknown async handle")),
                Some(_) => Err(invalid_operation("Promise already resolved")),
            }
        } else {
            runtime.complete_async(&self.handle, value)
        }
    }

    /// Fails the computation with `error`, if it is pending. Where it
    /// succeeds it says whether somebody waits to be woken.
    pub fn reject(&self, runtime: &mut AsyncRuntime, error: RuntimeError) -> (r: Result<
        bool,
        RuntimeError,
    >)
        requires
            old(runtime).wf(),
        ensures
            final(runtime).wf(),
            (final(runtime)@, wake_result(r)) == spec_settle(
                old(runtime)@,
                self.handle.id,
                AsyncStateView {
                    status: AsyncStatus::Failed,
                    result: state_of(old(runtime)@, self.handle.id).result,
                    error: Some(error@),
                    waker: false,
                },
            ),
    {
        if runtime.get_status(&self.handle) != AsyncStatus::Pending {
            match runtime.slot(self.handle.id) {
                None => Err(invalid_operation("Unknown async handle")),
                Some(_) => Err(invalid_operation("Promise already resolved")),
            }
        } else {
            runtime.fail_async(&self.handle, error)
        }
    }
}

/// The life of a computation. One that has begun is pending and has no
/// result yet; once it is completed with a value, asking for its result
/// gives that value, and it cannot be completed or failed again.
pub proof fn lemma_computation_life(a: AsyncView, value: ValueView, again: ValueView)
    requires
        registry_ok(a),
        a.next_id < u64::MAX,
    ensures
        ({
            let (a1, handle) = spec_begin(a);
            let (a2, completed) = spec_complete(a1, handle.id, value);
            &&& state_of(a1, handle.id).status == AsyncStatus::Pending
            &&& spec_result(a1, handle.id) == Ok::<Option<ValueView>, RuntimeErrorView>(None)
            &&& completed == Ok::<bool, RuntimeErrorView>(false)
            &&& state_of(a2, handle.id).status == AsyncStatus::Completed
            &&& spec_result(a2, handle.id) == Ok::<Option<ValueView>, RuntimeErrorView>(
                Some(value),
            )
            &&& spec_complete(a2, handle.id, again).1 is Err
            &&& spec_complete(a2, handle.id, again).0 == a2
            &&& spec_fail(a2, handle.id, invalid(Seq::empty())).1 is Err
        }),
{
}

} // verus!

//! The bridge between parked host coroutines and background tasks.
//!
//! One [`EventLoop`] exists per host thread. It owns the Suspension Table
//! (operation id to suspension handle), the ready-result store (operation id
//! to the value its task produced), a monotonic operation-id allocator, and
//! the two descriptor numbers of the notification pipe. The embedding layer
//! performs the outside work — asking the host for the current suspension
//! handle, submitting the task to the executor, parking and resuming
//! coroutines, and moving completed ids across threads — and feeds every
//! outcome into the methods here, which make all bookkeeping decisions and
//! are verified.

use vstd::prelude::*;
use vstd::hash_map::HashMapWithView;

verus! {

broadcast use vstd::std_specs::hash::group_hash_axioms;

/// An opaque token standing for one parked coroutine's suspension capability.
/// The host owns the capability itself; the bridge stores only this token and
/// hands it back when the matching operation completes, at which point the
/// embedding layer invokes the host's resume primitive on it.
#[derive(Clone, Copy, PartialEq, Eq, Structural, Debug)]
pub struct SuspensionHandle {
    pub token: u64,
}

/// What the environment offered when the bridge was (re)initialized: whether
/// the host exposes the two required suspension operations, and the pair of
/// descriptors the OS granted for the notification pipe (`None` when pipe
/// creation failed). The embedding layer probes the host and the OS and
/// records the outcome here; `init` and `new` decide from it.
#[derive(Clone, Copy, Debug)]
pub struct HostEnv {
    /// The host can hand out the currently running coroutine's suspension
    /// handle.
    pub has_suspension_getter: bool,
    /// A previously obtained suspension handle can be resumed later.
    pub has_resume: bool,
    /// The notification pipe the OS granted, as (read side, write side),
    /// with close-on-exec and non-blocking semantics already applied.
    pub pipe: Option<(u64, u64)>,
}

/// Every way a bridge operation can fail. Protocol violations are surfaced as
/// explicit errors rather than treated as fatal.
#[derive(Clone, Copy, PartialEq, Eq, Structural, Debug)]
pub enum BridgeError {
    /// The host cannot hand out the current coroutine's suspension handle.
    MissingSuspensionGetter,
    /// The host cannot resume a previously obtained suspension handle.
    MissingResume,
    /// The OS refused to create the notification pipe.
    PipeCreation,
    /// A completion was reported for an id that is not parked: it was never
    /// issued, or its coroutine was already resumed.
    UnknownOperationId(u64),
    /// A result was claimed for an id that has no ready result.
    ResultNotReady(u64),
}

impl BridgeError {
    /// The descriptive text of this error.
    pub open spec fn message_spec(self) -> Seq<char> {
        match self {
            BridgeError::MissingSuspensionGetter => "host cannot provide the current suspension handle"@,
            BridgeError::MissingResume => "host cannot resume a suspension handle"@,
            BridgeError::PipeCreation => "could not create the notification pipe"@,
            BridgeError::UnknownOperationId(_) => "operation id is not parked: never issued or already resumed"@,
            BridgeError::ResultNotReady(_) => "no ready result for this operation id"@,
        }
    }

    /// A human-readable description of the failure.
    pub fn message(&self) -> (m: &'static str)
        ensures
            m@ == self.message_spec(),
    {
        match self {
            BridgeError::MissingSuspensionGetter => "host cannot provide the current suspension handle",
            BridgeError::MissingResume => "host cannot resume a suspension handle",
            BridgeError::PipeCreation => "could not create the notification pipe",
            BridgeError::UnknownOperationId(_) => "operation id is not parked: never issued or already resumed",
            BridgeError::ResultNotReady(_) => "no ready result for this operation id",
        }
    }
}

/// The per-thread bridge state. `R` is the (opaque) type of the values that
/// background tasks produce; the bridge stores and hands them back without
/// ever inspecting them.
#[verifier::reject_recursive_types(R)]
pub struct EventLoop<R> {
    /// The Suspension Table: one entry per currently parked operation.
    fibers: HashMapWithView<u64, SuspensionHandle>,
    /// Results delivered by finished tasks whose coroutines have been woken
    /// but have not yet claimed them.
    ready: HashMapWithView<u64, R>,
    /// The next operation id to issue; ids are never reused.
    next_id: u64,
    /// Read side of the notification pipe, registered with the host's
    /// readiness mechanism.
    notify_receiver: u64,
    /// Write side of the notification pipe; a finishing task writes one byte
    /// to it.
    notify_sender: u64,
}

impl<R> EventLoop<R> {
    /// The Suspension Table: which handle each parked operation id holds.
    pub closed spec fn parked(self) -> Map<u64, SuspensionHandle> {
        self.fibers@
    }

    /// The delivered-but-unclaimed results.
    pub closed spec fn results(self) -> Map<u64, R> {
        self.ready@
    }

    /// The operation id the next suspension will receive.
    pub closed spec fn next_operation_id(self) -> u64 {
        self.next_id
    }

    /// The read side of the notification pipe.
    pub closed spec fn read_fd(self) -> u64 {
        self.notify_receiver
    }

    /// The write side of the notification pipe.
    pub closed spec fn write_fd(self) -> u64 {
        self.notify_sender
    }

    /// Well-formedness: ids are issued by the monotonic allocator, so every
    /// recorded id lies below the next one, and an id is parked or holds a
    /// ready result, never both — one id denotes one outstanding suspension.
    pub open spec fn wf(self) -> bool {
        &&& self.parked().dom().finite()
        &&& self.results().dom().finite()
        &&& (forall|id: u64| #[trigger] self.parked().contains_key(id) ==> id < self.next_operation_id())
        &&& (forall|id: u64| #[trigger] self.results().contains_key(id) ==> id < self.next_operation_id())
        &&& (forall|id: u64| !(#[trigger] self.parked().contains_key(id) && self.results().contains_key(id)))
    }

    /// Some entry of `c` carries the id `id`.
    pub open spec fn completed(c: Seq<(u64, R)>, id: u64) -> bool {
        exists|i: int| 0 <= i < c.len() && (#[trigger] c[i]).0 == id
    }

    /// Entry `i` of `c` cannot be delivered when `c` is drained against this
    /// state: its id is not parked, or an earlier entry already used the id.
    pub open spec fn offending_at(self, c: Seq<(u64, R)>, i: int) -> bool {
        ||| !self.parked().contains_key(c[i].0)
        ||| exists|j: int| 0 <= j < i && (#[trigger] c[j]).0 == c[i].0
    }

    /// Every entry of `c` names a distinct, currently parked operation.
    pub open spec fn deliverable(self, c: Seq<(u64, R)>) -> bool {
        &&& (forall|i: int| 0 <= i < c.len() ==> self.parked().contains_key((#[trigger] c[i]).0))
        &&& (forall|i: int, j: int| 0 <= i < j < c.len() ==> (#[trigger] c[i]).0 != (#[trigger] c[j]).0)
    }

    /// The transition `suspend_on` makes: a fresh id is issued and parked
    /// with the caller's handle; nothing else changes.
    pub open spec fn suspended(pre: Self, post: Self, handle: SuspensionHandle, id: u64) -> bool {
        &&& id == pre.next_operation_id()
        &&& !pre.parked().contains_key(id)
        &&& !pre.results().contains_key(id)
        &&& post.parked() == pre.parked().insert(id, handle)
        &&& post.results() == pre.results()
        &&& post.next_operation_id() == pre.next_operation_id() + 1
        &&& post.read_fd() == pre.read_fd()
        &&& post.write_fd() == pre.write_fd()
    }

    /// The transition a successful `wakeup` makes when draining `c`: the
    /// handles come back in completion order, each the one parked under its
    /// own id; exactly the drained ids leave the Suspension Table; each
    /// drained id's own result becomes ready; nothing else changes.
    pub open spec fn woken(pre: Self, post: Self, c: Seq<(u64, R)>, handles: Seq<SuspensionHandle>) -> bool {
        &&& pre.deliverable(c)
        &&& handles.len() == c.len()
        &&& (forall|i: int| 0 <= i < c.len() ==> handles[i] == pre.parked()[(#[trigger] c[i]).0])
        &&& (forall|i: int| 0 <= i < c.len() ==> !post.parked().contains_key((#[trigger] c[i]).0))
        &&& (forall|id: u64| !Self::completed(c, id) ==> (#[trigger] post.parked().contains_key(id)
                <==> pre.parked().contains_key(id)))
        &&& (forall|id: u64| !Self::completed(c, id) && pre.parked().contains_key(id)
                ==> #[trigger] post.parked()[id] == pre.parked()[id])
        &&& (forall|i: int| 0 <= i < c.len() ==> post.results().contains_key((#[trigger] c[i]).0))
        &&& (forall|i: int| 0 <= i < c.len() ==> post.results()[(#[trigger] c[i]).0] == c[i].1)
        &&& (forall|id: u64| !Self::completed(c, id) ==> (#[trigger] post.results().contains_key(id)
                <==> pre.results().contains_key(id)))
        &&& (forall|id: u64| !Self::completed(c, id) && pre.results().contains_key(id)
                ==> #[trigger] post.results()[id] == pre.results()[id])
        &&& post.next_operation_id() == pre.next_operation_id()
        &&& post.read_fd() == pre.read_fd()
        &&& post.write_fd() == pre.write_fd()
    }

    /// The transition `take_result` makes on success: the ready result for
    /// `id` — and only it — leaves the store, and `value` is that result.
    pub open spec fn result_taken(pre: Self, post: Self, id: u64, value: R) -> bool {
        &&& pre.results().contains_key(id)
        &&& value == pre.results()[id]
        &&& post.results() == pre.results().remove(id)
        &&& post.parked() == pre.parked()
        &&& post.next_operation_id() == pre.next_operation_id()
        &&& post.read_fd() == pre.read_fd()
        &&& post.write_fd() == pre.write_fd()
    }

    /// Validate the host environment and build an idle bridge around the
    /// granted notification pipe. Fails, constructing nothing, when the host
    /// lacks either suspension operation (checked first) or the OS granted no
    /// pipe.
    pub fn new(env: &HostEnv) -> (r: Result<Self, BridgeError>)
        ensures
            match r {
                Ok(ev) => {
                    &&& env.has_suspension_getter
                    &&& env.has_resume
                    &&& env.pipe is Some
                    &&& ev.wf()
                    &&& ev.parked() == Map::<u64, SuspensionHandle>::empty()
                    &&& ev.results() == Map::<u64, R>::empty()
                    &&& ev.next_operation_id() == 0
                    &&& (env.pipe matches Some(p) && ev.read_fd() == p.0 && ev.write_fd() == p.1)
                },
                Err(e) => {
                    &&& !(env.has_suspension_getter && env.has_resume && env.pipe is Some)
                    &&& (e == BridgeError::MissingSuspensionGetter <==> !env.has_suspension_getter)
                    &&& (e == BridgeError::MissingResume <==> env.has_suspension_getter
                        && !env.has_resume)
                    &&& (e == BridgeError::PipeCreation <==> env.has_suspension_getter
                        && env.has_resume && env.pipe is None)
                },
            },
    {
        if !env.has_suspension_getter {
            return Err(BridgeError::MissingSuspensionGetter);
        }
        if !env.has_resume {
            return Err(BridgeError::MissingResume);
        }
        match env.pipe {
            None => Err(BridgeError::PipeCreation),
            Some((read_side, write_side)) => Ok(EventLoop {
                fibers: HashMapWithView::new(),
                ready: HashMapWithView::new(),
                next_id: 0,
                notify_receiver: read_side,
                notify_sender: write_side,
            }),
        }
    }

    /// Idempotent per-thread initialization. An already installed bridge is
    /// left untouched and its read-side descriptor returned; otherwise the
    /// environment is validated and a fresh bridge installed, or a
    /// descriptive error returned with `slot` still empty — no partial state.
    pub fn init(slot: &mut Option<Self>, env: &HostEnv) -> (r: Result<u64, BridgeError>)
        requires
            (*old(slot)) matches Some(ev) ==> ev.wf(),
        ensures
            ((*final(slot)) matches Some(ev) ==> ev.wf()),
            match *old(slot) {
                Some(ev) => r == Ok::<u64, BridgeError>(ev.read_fd()) && *final(slot) == *old(
                    slot,
                ),
                None => match r {
                    Ok(fd) => {
                        &&& (*final(slot)) matches Some(ev)
                        &&& Self::new_ok(*env, ev)
                        &&& fd == ev.read_fd()
                    },
                    Err(e) => {
                        &&& (*final(slot)) is None
                        &&& !(env.has_suspension_getter && env.has_resume && env.pipe is Some)
                        &&& (e == BridgeError::MissingSuspensionGetter <==> !env.has_suspension_getter)
                        &&& (e == BridgeError::MissingResume <==> env.has_suspension_getter
                            && !env.has_resume)
                        &&& (e == BridgeError::PipeCreation <==> env.has_suspension_getter
                            && env.has_resume && env.pipe is None)
                    },
                },
            },
    {
        match slot {
            Some(ev) => Ok(ev.notify_receiver),
            None => {
                match Self::new(env) {
                    Ok(ev) => {
                        let fd = ev.notify_receiver;
                        *slot = Some(ev);
                        Ok(fd)
                    },
                    Err(e) => Err(e),
                }
            },
        }
    }

    /// What a successful `new` against `env` guarantees of the bridge it
    /// built: idle state, allocator at zero, the granted pipe installed.
    pub open spec fn new_ok(env: HostEnv, ev: Self) -> bool {
        &&& env.has_suspension_getter
        &&& env.has_resume
        &&& ev.wf()
        &&& ev.parked() == Map::<u64, SuspensionHandle>::empty()
        &&& ev.results() == Map::<u64, R>::empty()
        &&& ev.next_operation_id() == 0
        &&& (env.pipe matches Some(p) && ev.read_fd() == p.0 && ev.write_fd() == p.1)
    }

    /// The bridge's own step of suspension: issue a fresh operation id and
    /// park the calling coroutine's `handle` under it. The embedding layer
    /// then submits the task (tagged with the returned id) to the executor
    /// and invokes the host's suspend primitive; once the coroutine is
    /// resumed it claims its value with `take_result`.
    pub fn suspend_on(&mut self, handle: SuspensionHandle) -> (id: u64)
        requires
            old(self).wf(),
            old(self).next_operation_id() < u64::MAX,
        ensures
            final(self).wf(),
            Self::suspended(*old(self), *final(self), handle, id),
    {
        let id = self.next_id;
        self.fibers.insert(id, handle);
        self.next_id = self.next_id + 1;
        id
    }

    /// Drain the completions the embedding layer collected from finished
    /// tasks, in completion order. On success every drained id leaves the
    /// Suspension Table, its result becomes ready, and its handle is returned
    /// so the embedding layer can invoke the host's resume primitive on it.
    /// If any entry names an id that is not parked — never issued, already
    /// resumed, or repeated within `completions` — the first such id is
    /// reported and the bridge is left unchanged.
    pub fn wakeup(&mut self, completions: Vec<(u64, R)>) -> (r: Result<Vec<SuspensionHandle>, BridgeError>)
        requires
            old(self).wf(),
        ensures
            final(self).wf(),
            match r {
                Ok(handles) => Self::woken(*old(self), *final(self), completions@, handles@),
                Err(e) => {
                    &&& *final(self) == *old(self)
                    &&& !old(self).deliverable(completions@)
                    &&& exists|i: int|
                        {
                            &&& 0 <= i < completions@.len()
                            &&& old(self).offending_at(completions@, i)
                            &&& (forall|j: int| 0 <= j < i ==> !old(self).offending_at(
                                completions@,
                                j,
                            ))
                            &&& e == BridgeError::UnknownOperationId(completions@[i].0)
                        }
                },
            },
    {
        let ghost c = completions@;
        let n = completions.len();

        // Validation pass: every id parked, none repeated. No state changes.
        let mut k: usize = 0;
        while k < n
            invariant
                n == c.len(),
                completions@ == c,
                k <= n,
                old(self).wf(),
                *self == *old(self),
                forall|i: int| 0 <= i < k ==> !old(self).offending_at(c, i),
            decreases n - k,
        {
            let id = completions[k].0;
            if !self.fibers.contains_key(&id) {
                proof {
                    assert(old(self).offending_at(c, k as int));
                    assert(!old(self).deliverable(c)) by {
                        if old(self).deliverable(c) {
                            assert(old(self).parked().contains_key(c[k as int].0));
                        }
                    }
                }
                return Err(BridgeError::UnknownOperationId(id));
            }
            let mut j: usize = 0;
            while j < k
                invariant
                    j <= k < n == c.len(),
                    completions@ == c,
                    id == c[k as int].0,
                    old(self).wf(),
                    *self == *old(self),
                    forall|i: int| 0 <= i < k ==> !old(self).offending_at(c, i),
                    forall|t: int| 0 <= t < j ==> c[t].0 != id,
                decreases k - j,
            {
                if completions[j].0 == id {
                    proof {
                        assert(c[j as int].0 == c[k as int].0);
                        assert(old(self).offending_at(c, k as int));
                        assert(!old(self).deliverable(c)) by {
                            if old(self).deliverable(c) {
                                assert(c[j as int].0 != c[k as int].0);
                            }
                        }
                    }
                    return Err(BridgeError::UnknownOperationId(id));
                }
                j = j + 1;
            }
            proof {
                assert(!old(self).offending_at(c, k as int));
            }
            k = k + 1;
        }
        proof {
            assert forall|i: int| 0 <= i < c.len() implies old(self).parked().contains_key(
                (#[trigger] c[i]).0,
            ) by {
                assert(!old(self).offending_at(c, i));
            }
            assert forall|i: int, j: int| 0 <= i < j < c.len() implies (#[trigger] c[i]).0 != (
            #[trigger] c[j]).0 by {
                assert(!old(self).offending_at(c, j));
                if c[i].0 == c[j].0 {
                    assert(0 <= i < j && c[i].0 == c[j].0);
                    assert(old(self).offending_at(c, j));
                }
            }
            assert(old(self).deliverable(c));
        }

        // Apply pass: move each drained id from the Suspension Table to the
        // ready store, collecting its handle in completion order.
        let mut rest = completions;
        let mut handles: Vec<SuspensionHandle> = Vec::new();
        let mut done: usize = 0;
        while done < n
            invariant
                n == c.len(),
                done <= n,
                rest@ == c.subrange(done as int, n as int),
                handles@.len() == done,
                old(self).wf(),
                self.wf(),
                old(self).deliverable(c),
                self.next_id == old(self).next_id,
                self.notify_receiver == old(self).notify_receiver,
                self.notify_sender == old(self).notify_sender,
                forall|i: int| 0 <= i < done ==> handles@[i] == old(self).parked()[(#[trigger] c[i]).0],
                forall|i: int| 0 <= i < done ==> !self.parked().contains_key((#[trigger] c[i]).0),
                forall|i: int| done <= i < n ==> self.parked().contains_key((#[trigger] c[i]).0)
                    && self.parked()[c[i].0] == old(self).parked()[c[i].0],
                forall|id: u64| !Self::completed(c, id) ==> (#[trigger] self.parked().contains_key(id)
                    <==> old(self).parked().contains_key(id)),
                forall|id: u64| !Self::completed(c, id) && old(self).parked().contains_key(id)
                    ==> #[trigger] self.parked()[id] == old(self).parked()[id],
                forall|i: int| 0 <= i < done ==> self.results().contains_key((#[trigger] c[i]).0)
                    && self.results()[c[i].0] == c[i].1,
                forall|id: u64| !Self::completed(c, id) ==> (#[trigger] self.results().contains_key(id)
                    <==> old(self).results().contains_key(id)),
                forall|id: u64| !Self::completed(c, id) && old(self).results().contains_key(id)
                    ==> #[trigger] self.results()[id] == old(self).results()[id],
            decreases n - done,
        {
            let pair = rest.remove(0);
            let id = pair.0;
            proof {
                assert(c[done as int] == pair);
            }
            let handle = match self.fibers.remove(&id) {
                Some(h) => h,
                None => vstd::pervasive::unreached(),
            };
            handles.push(handle);
            self.ready.insert(id, pair.1);
            proof {
                assert(Self::completed(c, id)) by {
                    assert(c[done as int].0 == id);
                }
            }
            done = done + 1;
        }
        Ok(handles)
    }

    /// Claim the value the background task for `id` produced. Succeeds
    /// exactly when `wakeup` has delivered a completion for `id` that was not
    /// yet claimed; the entry leaves the ready store.
    pub fn take_result(&mut self, id: u64) -> (r: Result<R, BridgeError>)
        requires
            old(self).wf(),
        ensures
            final(self).wf(),
            match r {
                Ok(value) => Self::result_taken(*old(self), *final(self), id, value),
                Err(e) => {
                    &&& *final(self) == *old(self)
                    &&& !old(self).results().contains_key(id)
                    &&& e == BridgeError::ResultNotReady(id)
                },
            },
    {
        if !self.ready.contains_key(&id) {
            return Err(BridgeError::ResultNotReady(id));
        }
        let out = self.ready.remove(&id);
        match out {
            Some(value) => Ok(value),
            None => vstd::pervasive::unreached(),
        }
    }

    /// Release the bridge installed in `slot`, if any: the Suspension Table,
    /// the ready store and the pipe descriptors are dropped with it. Safe to
    /// call with no operation outstanding; shutting down while operations are
    /// in flight orphans their eventual completions — the caller must ensure
    /// quiescence first. Idempotent: on an empty slot it does nothing.
    pub fn shutdown(slot: &mut Option<Self>)
        ensures
            (*final(slot)) is None,
    {
        *slot = None;
    }

    /// The read-side descriptor of the notification pipe, for the host's
    /// readiness registration.
    pub fn notify_receiver_fd(&self) -> (fd: u64)
        ensures
            fd == self.read_fd(),
    {
        self.notify_receiver
    }

    /// The write-side descriptor of the notification pipe, for a finishing
    /// task's wake-up byte.
    pub fn notify_sender_fd(&self) -> (fd: u64)
        ensures
            fd == self.write_fd(),
    {
        self.notify_sender
    }

    /// The operation id the next suspension would receive. Lets the
    /// embedding layer check that the allocator is not exhausted before it
    /// suspends.
    pub fn next_id_value(&self) -> (n: u64)
        ensures
            n == self.next_operation_id(),
    {
        self.next_id
    }

    /// How many operations are currently parked.
    pub fn parked_count(&self) -> (n: usize)
        ensures
            n == self.parked().len(),
    {
        self.fibers.len()
    }

    /// Whether operation `id` is currently parked.
    pub fn is_parked(&self, id: u64) -> (b: bool)
        ensures
            b == self.parked().contains_key(id),
    {
        self.fibers.contains_key(&id)
    }

    /// Whether a ready, unclaimed result exists for operation `id`.
    pub fn has_result(&self, id: u64) -> (b: bool)
        ensures
            b == self.results().contains_key(id),
    {
        self.ready.contains_key(&id)
    }

    /// Isolation: however many operations are suspended at once, each one
    /// resumes through the handle parked under its own id and claims exactly
    /// the result its own task delivered — within one drain no two entries
    /// share an id, so no operation observes another's handle or result.
    pub proof fn lemma_operation_isolation(
        pre: Self,
        mid: Self,
        post: Self,
        c: Seq<(u64, R)>,
        handles: Seq<SuspensionHandle>,
        i: int,
        value: R,
    )
        requires
            Self::woken(pre, mid, c, handles),
            0 <= i < c.len(),
            Self::result_taken(mid, post, c[i].0, value),
        ensures
            handles[i] == pre.parked()[c[i].0],
            value == c[i].1,
            forall|j: int| 0 <= j < c.len() && j != i ==> (#[trigger] c[j]).0 != c[i].0,
    {
        assert forall|j: int| 0 <= j < c.len() && j != i implies (#[trigger] c[j]).0 != c[i].0 by {
            if j < i {
                assert(c[j].0 != c[i].0);
            } else {
                assert(c[i].0 != c[j].0);
            }
        }
    }

    /// After every successful drain the Suspension Table loses exactly the
    /// entries for the drained ids, so its size always equals the number of
    /// operations that are still parked.
    pub proof fn lemma_drain_shrinks_table(
        pre: Self,
        post: Self,
        c: Seq<(u64, R)>,
        handles: Seq<SuspensionHandle>,
    )
        requires
            pre.wf(),
            Self::woken(pre, post, c, handles),
        ensures
            forall|id: u64| #[trigger] post.parked().contains_key(id) <==> (
            pre.parked().contains_key(id) && !Self::completed(c, id)),
            post.parked().len() + c.len() == pre.parked().len(),
    {
        broadcast use vstd::seq_lib::seq_to_set_is_finite;

        assert forall|id: u64| #[trigger] post.parked().contains_key(id) <==> (
        pre.parked().contains_key(id) && !Self::completed(c, id)) by {
            if Self::completed(c, id) {
                let i = choose|i: int| 0 <= i < c.len() && (#[trigger] c[i]).0 == id;
                assert(!post.parked().contains_key(c[i].0));
            }
        }
        let ids = Seq::new(c.len(), |i: int| c[i].0);
        assert(ids.no_duplicates()) by {
            assert forall|i: int, j: int| 0 <= i < ids.len() && 0 <= j < ids.len() && i != j
                implies ids[i] != ids[j] by {
                if i < j {
                    assert(c[i].0 != c[j].0);
                } else {
                    assert(c[j].0 != c[i].0);
                }
            }
        }
        ids.unique_seq_to_set();
        assert forall|id: u64| ids.to_set().contains(id) <==> Self::completed(c, id) by {
            if ids.to_set().contains(id) {
                let i = choose|i: int| 0 <= i < ids.len() && ids[i] == id;
                assert(c[i].0 == id);
            }
            if Self::completed(c, id) {
                let i = choose|i: int| 0 <= i < c.len() && (#[trigger] c[i]).0 == id;
                assert(ids[i] == id);
                assert(ids.contains(id));
            }
        }
        assert(post.parked() =~= pre.parked().remove_keys(ids.to_set()));
        pre.parked().lemma_remove_keys_len(ids.to_set());
    }

    /// Round trip: a computation that has already resolved to `value`
    /// completes one full suspend/resume cycle through the bridge — the
    /// caller's own handle is the one woken, the caller receives exactly
    /// `value`, and the Suspension Table and ready store end as they began,
    /// with no other observable state change. (The id allocator advances:
    /// ids are never reused.)
    pub fn round_trip_immediate(&mut self, handle: SuspensionHandle, value: R) -> (r: R)
        requires
            old(self).wf(),
            old(self).next_operation_id() < u64::MAX,
        ensures
            final(self).wf(),
            r == value,
            final(self).parked() == old(self).parked(),
            final(self).results() == old(self).results(),
            final(self).read_fd() == old(self).read_fd(),
            final(self).write_fd() == old(self).write_fd(),
    {
        let id = self.suspend_on(handle);
        let ghost mid = *self;
        let mut completions: Vec<(u64, R)> = Vec::new();
        completions.push((id, value));
        let ghost c = completions@;
        proof {
            assert(c.len() == 1 && c[0] == (id, value));
            assert(mid.parked().contains_key(id));
            assert forall|i: int| 0 <= i < c.len() implies mid.parked().contains_key(
                (#[trigger] c[i]).0,
            ) by {
                assert(i == 0);
            }
            assert(mid.deliverable(c));
        }
        let handles = match self.wakeup(completions) {
            Ok(h) => h,
            Err(_) => vstd::pervasive::unreached(),
        };
        let ghost drained = *self;
        proof {
            assert(handles@[0] == handle);
            assert(drained.results().contains_key(c[0].0));
        }
        let r = match self.take_result(id) {
            Ok(v) => v,
            Err(_) => vstd::pervasive::unreached(),
        };
        proof {
            assert forall|x: u64| x != id implies !Self::completed(c, x) by {
                if Self::completed(c, x) {
                    let i = choose|i: int| 0 <= i < c.len() && (#[trigger] c[i]).0 == x;
                    assert(i == 0);
                }
            }
            assert(self.parked() =~= old(self).parked());
            assert(self.results() =~= old(self).results());
        }
        r
    }

    /// Shutting down twice in succession is safe: the first call leaves the
    /// slot empty, and a second shutdown of an empty slot finds nothing to
    /// release and changes nothing.
    pub proof fn lemma_shutdown_idempotent(
        after_first: Option<Self>,
        after_second: Option<Self>,
    )
        requires
            after_first is None,
            after_second is None,
        ensures
            after_second == after_first,
    {
    }
}

} // verus!

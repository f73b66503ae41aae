//! The dispatcher: the bridge between native threads and the host's
//! single logical execution queue.
//!
//! Async invocations are enqueued in FIFO order and the host begins them
//! in exactly that order, whatever native task enqueued them. Blocking
//! decorator invocations run one at a time during the schema build phase:
//! each mutation window opens and closes before the next opens, and a
//! failing decorator aborts the build without leaving a partially-mutated
//! entity behind.

use vstd::prelude::*;

use crate::callback::CallbackId;
use crate::errors::BridgeError;
use crate::property::Property;
use crate::value::{host_of, host_plain, native_of, Handle, HostValue, Value, ValueModel};

verus! {

/// One queued invocation of a registered callback, with its marshaled
/// host-side arguments. The ticket is the position in enqueue order.
#[derive(Debug, PartialEq, Eq)]
pub struct InvocationRequest {
    pub ticket: usize,
    pub callback: CallbackId,
    pub args: Vec<HostValue>,
}

/// The host execution queue as the dispatcher sees it: requests the host
/// has begun executing, in the order it began them, and requests still
/// waiting, in enqueue order.
pub struct Dispatcher {
    pub begun: Vec<InvocationRequest>,
    pub pending: Vec<InvocationRequest>,
}

impl Dispatcher {
    /// Tickets are consecutive: the requests the host has begun carry the
    /// first tickets ever issued, in order, and the waiting requests carry
    /// the following ones, in order.
    pub open spec fn wf(self) -> bool {
        &&& forall|i: int| 0 <= i < self.begun@.len() ==> self.begun@[i].ticket == i
        &&& forall|j: int|
            0 <= j < self.pending@.len() ==> self.pending@[j].ticket == self.begun@.len() + j
    }

    /// How many requests have ever been enqueued.
    pub open spec fn issued(self) -> int {
        self.begun@.len() + self.pending@.len() as int
    }

    pub fn new() -> (d: Dispatcher)
        ensures
            d.wf(),
            d.begun@.len() == 0,
            d.pending@.len() == 0,
    {
        Dispatcher { begun: Vec::new(), pending: Vec::new() }
    }

    /// Enqueue an invocation request onto the host queue, from any native
    /// thread. The returned ticket is its enqueue position.
    pub fn enqueue(&mut self, callback: CallbackId, args: Vec<HostValue>) -> (t: usize)
        requires
            old(self).wf(),
            old(self).issued() < usize::MAX,
        ensures
            final(self).wf(),
            t == old(self).issued(),
            final(self).begun@ == old(self).begun@,
            final(self).pending@ == old(self).pending@.push(
                (InvocationRequest { ticket: t, callback, args }),
            ),
    {
        let t = self.begun.len() + self.pending.len();
        self.pending.push(InvocationRequest { ticket: t, callback, args });
        t
    }

    /// The host takes the next request to execute: always the front of the
    /// waiting queue, so host callback bodies begin in enqueue order.
    pub fn begin_next(&mut self) -> (r: Option<&InvocationRequest>)
        requires
            old(self).wf(),
        ensures
            final(self).wf(),
            old(self).pending@.len() == 0 ==> r is None && *final(self) == *old(self),
            old(self).pending@.len() > 0 ==> ({
                &&& r matches Some(req) && *req == old(self).pending@[0]
                &&& final(self).begun@ == old(self).begun@.push(old(self).pending@[0])
                &&& final(self).pending@ == old(self).pending@.skip(1)
            }),
    {
        if self.pending.is_empty() {
            return None;
        }
        let req = self.pending.remove(0);
        proof {
            assert(old(self).pending@.remove(0) =~= old(self).pending@.skip(1));
        }
        self.begun.push(req);
        Some(&self.begun[self.begun.len() - 1])
    }

    /// FIFO delivery: the host observes and begins the requests in exactly
    /// enqueue order — the k-th request begun carries ticket k, so of any
    /// two begun requests the one enqueued first was begun first.
    pub proof fn lemma_fifo_delivery(self)
        requires
            self.wf(),
        ensures
            forall|i: int| 0 <= i < self.begun@.len() ==> self.begun@[i].ticket == i,
            forall|i: int, j: int|
                0 <= i < j < self.begun@.len() ==> self.begun@[i].ticket < self.begun@[j].ticket,
            forall|i: int, j: int|
                0 <= i < self.begun@.len() && 0 <= j < self.pending@.len() ==> self.begun@[
                    i
                ].ticket < self.pending@[j].ticket,
    {
    }
}

/// The argument tuple a handler invocation hands to the host: the
/// marshaled request body, a wrapper for the transaction context, and a
/// wrapper for the request entity.
pub fn handler_args(body: &Value, transaction_ctx: Handle, request: Handle) -> (args: Vec<
    HostValue,
>)
    ensures
        args@.len() == 3,
        args@[0].deep() == host_of(body.deep()),
        args@[1] == HostValue::Wrapper(transaction_ctx),
        args@[2] == HostValue::Wrapper(request),
{
    let mut args: Vec<HostValue> = Vec::new();
    args.push(body.to_host());
    args.push(HostValue::Wrapper(transaction_ctx));
    args.push(HostValue::Wrapper(request));
    args
}

/// The argument tuple a pipeline item invocation hands to the host: the
/// marshaled current value, the marshaled invocation arguments, and
/// wrappers for the owning model object and the transaction context.
pub fn pipeline_args(
    current: &Value,
    arguments: &Value,
    object: Handle,
    transaction_ctx: Handle,
) -> (args: Vec<HostValue>)
    ensures
        args@.len() == 4,
        args@[0].deep() == host_of(current.deep()),
        args@[1].deep() == host_of(arguments.deep()),
        args@[2] == HostValue::Wrapper(object),
        args@[3] == HostValue::Wrapper(transaction_ctx),
{
    let mut args: Vec<HostValue> = Vec::new();
    args.push(current.to_host());
    args.push(arguments.to_host());
    args.push(HostValue::Wrapper(object));
    args.push(HostValue::Wrapper(transaction_ctx));
    args
}

/// The argument tuple a decorator invocation hands to the host: the
/// marshaled invocation arguments and a wrapper for the entity being
/// decorated.
pub fn decorator_args(arguments: &Value, entity: Handle) -> (args: Vec<HostValue>)
    ensures
        args@.len() == 2,
        args@[0].deep() == host_of(arguments.deep()),
        args@[1] == HostValue::Wrapper(entity),
{
    let mut args: Vec<HostValue> = Vec::new();
    args.push(arguments.to_host());
    args.push(HostValue::Wrapper(entity));
    args
}

/// One entry of the schema build log: a decorator mutation window opening
/// on an entity, or closing again.
#[derive(Clone, Debug, PartialEq, Eq)]
pub enum BuildStep {
    Begin { decorator: String, entity: String },
    End { decorator: String, entity: String },
}

/// The schema construction phase: blocking decorator invocations run here,
/// strictly one at a time, and an unrecoverable callback failure aborts
/// the whole phase.
pub struct SchemaBuild {
    pub log: Vec<BuildStep>,
    pub failed: bool,
}

/// Whether every mutation listed by a decorator outcome carries a
/// marshalable value.
pub open spec fn all_plain(ms: Seq<(String, HostValue)>) -> bool {
    forall|i: int| 0 <= i < ms.len() ==> host_plain(ms[i].1.deep())
}

/// What a property's data table binds `k` to after applying a mutation
/// list in order: the last mutation of `k` wins, and keys the list never
/// mentions keep their old binding.
pub open spec fn mutated_entry(p: Property, ms: Seq<(String, HostValue)>, k: Seq<char>) -> Option<
    ValueModel,
>
    decreases ms,
{
    if ms.len() == 0 {
        p.entry(k)
    } else if ms.last().0@ == k {
        match native_of(ms.last().1.deep()) {
            Some(v) => Some(v),
            None => None,
        }
    } else {
        mutated_entry(p, ms.drop_last(), k)
    }
}

/// What a blocking decorator callback came back with: the entity mutations
/// it requested, or an unrecoverable failure.
pub enum DecoratorOutcome {
    Mutations(Vec<(String, HostValue)>),
    Failure,
}

impl SchemaBuild {
    /// Mutation windows strictly alternate: every even log position opens
    /// a window and every odd one closes it again.
    pub open spec fn wf(self) -> bool {
        &&& self.log@.len() % 2 == 0
        &&& forall|i: int| 0 <= i < self.log@.len() ==> ((self.log@[i] is Begin) <==> (i % 2 == 0))
    }

    pub fn new() -> (b: SchemaBuild)
        ensures
            b.wf(),
            !b.failed,
            b.log@.len() == 0,
    {
        SchemaBuild { log: Vec::new(), failed: false }
    }

    /// Run one blocking decorator invocation to completion: open the
    /// mutation window on the entity, apply what the host callback came
    /// back with, and close the window. Windows never overlap: the whole
    /// invocation happens here, and a build that already failed accepts no
    /// further invocation.
    ///
    /// A failing callback — or one whose requested mutations cannot be
    /// marshaled — aborts the build with the decorator name and entity as
    /// diagnostic context and leaves the entity exactly as it was: no
    /// partial mutation is visible afterward.
    #[verifier::loop_isolation(false)]
    pub fn run_decorator(
        &mut self,
        prop: &mut Property,
        decorator: String,
        entity: String,
        outcome: DecoratorOutcome,
    ) -> (r: Result<(), BridgeError>)
        requires
            old(self).wf(),
            !old(self).failed,
            old(prop).wf(),
        ensures
            final(self).wf(),
            final(prop).wf(),
            final(self).log@.len() == old(self).log@.len() + 2,
            (final(self).log@[old(self).log@.len() as int] matches BuildStep::Begin {
                decorator: d,
                entity: en,
            } && d == decorator && en == entity),
            r is Ok <==> (outcome matches DecoratorOutcome::Mutations(ms) && all_plain(ms@)),
            r is Ok ==> ({
                &&& !final(self).failed
                &&& outcome matches DecoratorOutcome::Mutations(ms)
                &&& forall|k: Seq<char>|
                    final(prop).entry(k) == mutated_entry(*old(prop), ms@, k)
            }),
            r matches Err(e) ==> ({
                &&& e matches BridgeError::CallbackFailure { decorator: d, entity: en } && d
                    == decorator && en == entity
                &&& final(self).failed
                &&& *final(prop) == *old(prop)
            }),
    {
        self.log.push(BuildStep::Begin { decorator: decorator.clone(), entity: entity.clone() });
        let ghost mid = self.log@;
        let r: Result<(), BridgeError> = match outcome {
            DecoratorOutcome::Mutations(ms) => {
                // Marshal the whole mutation list before touching the
                // entity, so a failure leaves it untouched.
                let mut native: Vec<(String, Value)> = Vec::new();
                let mut i: usize = 0;
                let mut bad: bool = false;
                while i < ms.len()
                    invariant
                        i <= ms@.len(),
                        !bad ==> native@.len() == i,
                        !bad ==> forall|j: int|
                            0 <= j < i ==> ({
                                &&& host_plain(ms@[j].1.deep())
                                &&& native@[j].0 == ms@[j].0
                                &&& Some(native@[j].1.deep()) == native_of(ms@[j].1.deep())
                            }),
                        bad ==> !all_plain(ms@),
                    decreases ms@.len() - i,
                {
                    if !bad {
                        match ms[i].1.to_native() {
                            Ok(v) => {
                                native.push((ms[i].0.clone(), v));
                            },
                            Err(_) => {
                                bad = true;
                            },
                        }
                    }
                    i = i + 1;
                }
                if bad {
                    Err(
                        (BridgeError::CallbackFailure {
                            decorator: decorator.clone(),
                            entity: entity.clone(),
                        }),
                    )
                } else {
                    let ghost allnative = native@;
                    let mut j: usize = 0;
                    while native.len() > 0
                        invariant
                            j + native@.len() == allnative.len(),
                            native@ == allnative.skip(j as int),
                            allnative.len() == ms@.len(),
                            prop.wf(),
                            forall|jj: int|
                                0 <= jj < allnative.len() ==> ({
                                    &&& host_plain(ms@[jj].1.deep())
                                    &&& allnative[jj].0 == ms@[jj].0
                                    &&& Some(allnative[jj].1.deep()) == native_of(ms@[jj].1.deep())
                                }),
                            forall|k: Seq<char>|
                                prop.entry(k) == mutated_entry(*old(prop), ms@.take(j as int), k),
                        decreases native@.len(),
                    {
                        let (entry, v) = native.remove(0);
                        proof {
                            assert(allnative.skip(j as int)[0] == allnative[j as int]);
                        }
                        let ghost before = *prop;
                        prop.set_native(entry, v);
                        j = j + 1;
                        proof {
                            assert(native@ =~= allnative.skip(j as int));
                            let pfx = ms@.take(j as int);
                            assert(pfx.drop_last() =~= ms@.take(j - 1));
                            assert forall|k: Seq<char>|
                                prop.entry(k) == mutated_entry(*old(prop), pfx, k) by {
                                if k == ms@[j - 1].0@ {
                                } else {
                                    assert(prop.entry(k) == before.entry(k));
                                }
                            }
                        }
                    }
                    proof {
                        assert(ms@.take(ms@.len() as int) =~= ms@);
                    }
                    Ok(())
                }
            },
            DecoratorOutcome::Failure => Err(
                (BridgeError::CallbackFailure {
                    decorator: decorator.clone(),
                    entity: entity.clone(),
                }),
            ),
        };
        if r.is_err() {
            self.failed = true;
        }
        self.log.push(BuildStep::End { decorator, entity });
        proof {
            assert forall|i: int| 0 <= i < self.log@.len() implies ((self.log@[i] is Begin) <==> (
            i % 2 == 0)) by {
                if i < old(self).log@.len() {
                    assert(self.log@[i] == old(self).log@[i]);
                } else if i == old(self).log@.len() {
                    assert(self.log@[i] == mid.last());
                }
            }
        }
        r
    }

    /// Single-flight mutation: windows never overlap — between any two
    /// window openings in the build log, an earlier window has closed.
    pub proof fn lemma_single_flight(self, i: int, j: int)
        requires
            self.wf(),
            0 <= i < j < self.log@.len(),
            self.log@[i] is Begin,
            self.log@[j] is Begin,
        ensures
            exists|k: int| i < k < j && self.log@[k] is End,
    {
        assert(i % 2 == 0);
        assert(j % 2 == 0);
        assert((i + 1) % 2 == 1);
        assert(i + 1 < j);
        assert(!(self.log@[i + 1] is Begin));
        assert(self.log@[i + 1] is End);
    }
}

} // verus!

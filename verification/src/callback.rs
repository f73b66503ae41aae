//! The process-wide callback registry.
//!
//! Registering turns a host callback into a repeatedly-invocable entry: the
//! host function together with its argument shape, result shape, and
//! invocation mode. The table is insert-only by design: a stored callback
//! may be invoked at any future point of the process lifetime, so no entry
//! is ever removed.

use vstd::prelude::*;

verus! {

/// A stable reference to a registered callback.
#[derive(Clone, Copy, PartialEq, Eq, Structural, Debug)]
pub struct CallbackId {
    pub id: usize,
}

/// How an invocation reaches the host queue: blocking suspends the native
/// caller until the host result is back; async returns a deferred result.
#[derive(Clone, Copy, PartialEq, Eq, Structural, Debug)]
pub enum InvocationMode {
    Blocking,
    Async,
}

/// The fixed argument tuple a registration point passes to the host.
#[derive(Clone, Copy, PartialEq, Eq, Structural, Debug)]
pub enum ArgumentShape {
    /// (request-body value, transaction-context handle, request handle).
    Handler,
    /// (current value, arguments record, model-object handle, transaction-context handle).
    PipelineItem,
    /// (arguments record, mutable handle to the decorated entity).
    Decorator,
}

/// The result a registration point expects back from the host.
#[derive(Clone, Copy, PartialEq, Eq, Structural, Debug)]
pub enum ResultShape {
    /// Nothing: the host mutates the handed-out entity handle in place.
    Void,
    /// A structured response value.
    Response,
    /// An arbitrary transformed value.
    Transformed,
}

/// A host callback stored in a native entity's behavior table, with the
/// call shape the dispatcher uses when invoking it.
#[derive(Clone, Copy, PartialEq, Eq, Structural, Debug)]
pub struct RegisteredCallback {
    /// The identity of the host function, as the host runtime names it.
    pub host_fn: u64,
    pub args: ArgumentShape,
    pub result: ResultShape,
    pub mode: InvocationMode,
}

/// The process-wide table of registered callbacks, with no removal API.
pub struct CallbackTable {
    pub entries: Vec<RegisteredCallback>,
}

impl CallbackTable {
    /// Whether `id` names an entry of this table. Once true, it stays true
    /// for the process lifetime: entries are never removed.
    pub open spec fn valid(self, id: CallbackId) -> bool {
        id.id < self.entries@.len()
    }

    pub fn new() -> (t: CallbackTable)
        ensures
            t.entries@.len() == 0,
    {
        CallbackTable { entries: Vec::new() }
    }

    /// Wrap a host callback into an invocable entry and keep it for the
    /// remaining process lifetime.
    pub fn register(&mut self, cb: RegisteredCallback) -> (id: CallbackId)
        ensures
            final(self).entries@ == old(self).entries@.push(cb),
            id.id == old(self).entries@.len(),
            final(self).valid(id),
            final(self).entries@[id.id as int] == cb,
    {
        let id = CallbackId { id: self.entries.len() };
        self.entries.push(cb);
        id
    }

    /// Read a registered callback back.
    pub fn get(&self, id: CallbackId) -> (cb: &RegisteredCallback)
        requires
            self.valid(id),
        ensures
            *cb == self.entries@[id.id as int],
    {
        &self.entries[id.id]
    }

    pub fn len(&self) -> (n: usize)
        ensures
            n == self.entries@.len(),
    {
        self.entries.len()
    }
}

} // verus!

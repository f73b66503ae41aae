//! A handler group: a behavior table of named request handlers.
//!
//! Defining a handler wraps the supplied host callback into an async,
//! response-producing registry entry and stores it under the handler's
//! name; a second definition under the same name in the same group is a
//! registration conflict and leaves the first one active.

use vstd::prelude::*;

use crate::callback::{ArgumentShape, CallbackId, CallbackTable, InvocationMode,
    RegisteredCallback, ResultShape};
use crate::errors::BridgeError;
use crate::table::{distinct_keys, find_key, has_key, lemma_lookup_push, lookup};

verus! {

/// A group of named request handlers inside the native entity tree.
pub struct HandlerGroup {
    pub handlers: Vec<(String, CallbackId)>,
}

impl HandlerGroup {
    /// Handler names are unique within the group.
    pub open spec fn wf(self) -> bool {
        distinct_keys(self.handlers@)
    }

    /// The callback registered under `name`, if any.
    pub open spec fn handler(self, name: Seq<char>) -> Option<CallbackId> {
        lookup(self.handlers@, name)
    }

    pub fn new() -> (g: HandlerGroup)
        ensures
            g.wf(),
            g.handlers@.len() == 0,
    {
        HandlerGroup { handlers: Vec::new() }
    }

    /// Register a host callback as the handler named `name`: the callback
    /// is wrapped as an async, response-shaped registry entry and the name
    /// is bound to it. Fails with a registration conflict if the name is
    /// already taken in this group, leaving the existing registration and
    /// the registry untouched.
    pub fn define_handler(
        &mut self,
        callbacks: &mut CallbackTable,
        name: String,
        host_fn: u64,
    ) -> (r: Result<(), BridgeError>)
        requires
            old(self).wf(),
            name@.len() > 0,
        ensures
            final(self).wf(),
            r is Ok <==> !has_key(old(self).handlers@, name@),
            r matches Err(e) ==> ({
                &&& e matches BridgeError::RegistrationConflict { name: n } && n@ == name@
                &&& *final(self) == *old(self)
                &&& *final(callbacks) == *old(callbacks)
            }),
            r is Ok ==> ({
                &&& final(callbacks).entries@ == old(callbacks).entries@.push(
                    (RegisteredCallback {
                        host_fn,
                        args: ArgumentShape::Handler,
                        result: ResultShape::Response,
                        mode: InvocationMode::Async,
                    }),
                )
                &&& final(self).handlers@ == old(self).handlers@.push(
                    (name, (CallbackId { id: old(callbacks).entries@.len() as usize })),
                )
                &&& final(self).handler(name@) == Some(
                    (CallbackId { id: old(callbacks).entries@.len() as usize }),
                )
                &&& forall|k2: Seq<char>|
                    k2 != name@ ==> final(self).handler(k2) == old(self).handler(k2)
            }),
    {
        if find_key(&self.handlers, &name).is_some() {
            return Err(BridgeError::RegistrationConflict { name });
        }
        let id = callbacks.register(
            RegisteredCallback {
                host_fn,
                args: ArgumentShape::Handler,
                result: ResultShape::Response,
                mode: InvocationMode::Async,
            },
        );
        proof {
            lemma_lookup_push(self.handlers@, name, id);
        }
        self.handlers.push((name, id));
        Ok(())
    }
}

} // verus!

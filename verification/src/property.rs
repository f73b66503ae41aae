//! A model property entity: a named data table a host decorator callback
//! fills through its handle.
//!
//! The data table is string-keyed with distinct keys; writing marshals the
//! host value first and mutates nothing when marshaling fails.

use vstd::prelude::*;

use crate::errors::BridgeError;
use crate::table::{distinct_keys, find_key, has_key, lemma_lookup_at, lemma_lookup_push,
    lemma_lookup_update, lookup};
use crate::value::{host_of, host_plain, native_of, HostValue, Value, ValueModel};

verus! {

/// A model property in the native entity tree.
pub struct Property {
    pub data: Vec<(String, Value)>,
}

impl Property {
    /// The data table never holds two entries under one key.
    pub open spec fn wf(self) -> bool {
        distinct_keys(self.data@)
    }

    /// What the data table binds key `k` to, as a mathematical value.
    pub open spec fn entry(self, k: Seq<char>) -> Option<ValueModel> {
        match lookup(self.data@, k) {
            Some(v) => Some(v.deep()),
            None => None,
        }
    }

    pub fn new() -> (p: Property)
        ensures
            p.wf(),
            p.data@.len() == 0,
    {
        Property { data: Vec::new() }
    }

    /// Store a host value under `key`, marshaling it to a native value
    /// first. A host value of unsupported kind is rejected and the
    /// property is left untouched; otherwise the key is bound to the
    /// marshaled value and every other key keeps its binding.
    pub fn set_data(&mut self, key: String, value: HostValue) -> (r: Result<(), BridgeError>)
        requires
            old(self).wf(),
        ensures
            final(self).wf(),
            r is Ok <==> host_plain(value.deep()),
            r is Ok ==> final(self).entry(key@) == native_of(value.deep()),
            r is Ok ==> forall|k2: Seq<char>|
                k2 != key@ ==> final(self).entry(k2) == old(self).entry(k2),
            r matches Err(e) ==> e == BridgeError::MarshalUnsupportedKind && *final(self) == *old(
                self,
            ),
    {
        let native = match value.to_native() {
            Ok(v) => v,
            Err(e) => {
                return Err(e);
            },
        };
        self.set_native(key, native);
        Ok(())
    }

    /// Store an already-marshaled native value under `key`: the key is
    /// bound to it and every other key keeps its binding.
    pub fn set_native(&mut self, key: String, value: Value)
        requires
            old(self).wf(),
        ensures
            final(self).wf(),
            final(self).entry(key@) == Some(value.deep()),
            forall|k2: Seq<char>| k2 != key@ ==> final(self).entry(k2) == old(self).entry(k2),
    {
        match find_key(&self.data, &key) {
            Some(i) => {
                proof {
                    lemma_lookup_update(self.data@, i as int, key, value);
                }
                self.data[i] = (key, value);
            },
            None => {
                proof {
                    lemma_lookup_push(self.data@, key, value);
                }
                self.data.push((key, value));
            },
        }
    }

    /// Read the value stored under `key` back as a host value, or nothing
    /// when the key is unbound.
    pub fn data(&self, key: &String) -> (r: Option<HostValue>)
        requires
            self.wf(),
        ensures
            r is Some <==> has_key(self.data@, key@),
            r matches Some(h) ==> (self.entry(key@) matches Some(v) && h.deep() == host_of(v)),
    {
        match find_key(&self.data, key) {
            Some(i) => {
                proof {
                    lemma_lookup_at(self.data@, key@, i as int);
                }
                Some(self.data[i].1.to_host())
            },
            None => None,
        }
    }
}

} // verus!

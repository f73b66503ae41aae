//! Marshaled values: the language-neutral value shape exchanged across the
//! bridge, and the bidirectional conversion between host values and native
//! values.
//!
//! Marshaling is total from native values to host values and partial the
//! other way: a host value may contain a kind (a host function) with no
//! native counterpart, which is rejected explicitly rather than silently
//! coerced.

use vstd::prelude::*;

use crate::errors::BridgeError;

verus! {

/// A generation-checked reference to a native entity slot in an arena.
///
/// A handle is only usable while the generation stored in the slot still
/// matches; a stale handle is detected instead of dereferenced.
#[derive(Clone, Copy, PartialEq, Eq, Structural, Debug)]
pub struct Handle {
    pub index: usize,
    pub generation: u64,
}

/// The mathematical shape of a native marshaled value.
#[verifier::ext_equal]
pub enum ValueModel {
    Null,
    Bool(bool),
    Int(int),
    Text(Seq<char>),
    List(Seq<ValueModel>),
    Record(Seq<(Seq<char>, ValueModel)>),
    Ref(Handle),
}

/// The mathematical shape of a dynamic host value.
#[verifier::ext_equal]
pub enum HostModel {
    Undefined,
    Bool(bool),
    Int(int),
    Text(Seq<char>),
    List(Seq<HostModel>),
    Record(Seq<(Seq<char>, HostModel)>),
    Wrapper(Handle),
    Function(nat),
}

/// A native marshaled value: a scalar, an ordered sequence, a string-keyed
/// record, or an opaque handle to a native entity.
#[derive(Debug, PartialEq, Eq)]
pub enum Value {
    Null,
    Bool(bool),
    Int(i64),
    Text(String),
    List(Vec<Value>),
    Record(Vec<(String, Value)>),
    Ref(Handle),
}

/// A dynamic host value as the bridge sees it: the marshalable shapes, a
/// wrapper object carrying a handle back to a native entity, and a host
/// function, which has no native counterpart.
#[derive(Debug, PartialEq, Eq)]
pub enum HostValue {
    Undefined,
    Bool(bool),
    Int(i64),
    Text(String),
    List(Vec<HostValue>),
    Record(Vec<(String, HostValue)>),
    Wrapper(Handle),
    Function(u64),
}

impl Value {
    /// The mathematical value this native value denotes.
    pub open spec fn deep(self) -> ValueModel
        decreases self,
    {
        match self {
            Value::Null => ValueModel::Null,
            Value::Bool(b) => ValueModel::Bool(b),
            Value::Int(i) => ValueModel::Int(i as int),
            Value::Text(s) => ValueModel::Text(s@),
            Value::List(items) => {
                proof {
                    assert(decreases_to!(items => items@));
                }
                ValueModel::List(deep_values(items@))
            },
            Value::Record(entries) => {
                proof {
                    assert(decreases_to!(entries => entries@));
                }
                ValueModel::Record(deep_value_entries(entries@))
            },
            Value::Ref(h) => ValueModel::Ref(h),
        }
    }
}

/// The element-wise denotation of a sequence of native values.
pub open spec fn deep_values(s: Seq<Value>) -> Seq<ValueModel>
    decreases s,
{
    if s.len() == 0 {
        Seq::empty()
    } else {
        deep_values(s.drop_last()).push(s.last().deep())
    }
}

/// The entry-wise denotation of a sequence of named native values.
pub open spec fn deep_value_entries(s: Seq<(String, Value)>) -> Seq<(Seq<char>, ValueModel)>
    decreases s,
{
    if s.len() == 0 {
        Seq::empty()
    } else {
        proof {
            assert(decreases_to!(s => s.last()));
        }
        deep_value_entries(s.drop_last()).push((s.last().0@, s.last().1.deep()))
    }
}

impl HostValue {
    /// The mathematical value this host value denotes.
    pub open spec fn deep(self) -> HostModel
        decreases self,
    {
        match self {
            HostValue::Undefined => HostModel::Undefined,
            HostValue::Bool(b) => HostModel::Bool(b),
            HostValue::Int(i) => HostModel::Int(i as int),
            HostValue::Text(s) => HostModel::Text(s@),
            HostValue::List(items) => {
                proof {
                    assert(decreases_to!(items => items@));
                }
                HostModel::List(deep_host_values(items@))
            },
            HostValue::Record(entries) => {
                proof {
                    assert(decreases_to!(entries => entries@));
                }
                HostModel::Record(deep_host_entries(entries@))
            },
            HostValue::Wrapper(h) => HostModel::Wrapper(h),
            HostValue::Function(f) => HostModel::Function(f as nat),
        }
    }
}

/// The element-wise denotation of a sequence of host values.
pub open spec fn deep_host_values(s: Seq<HostValue>) -> Seq<HostModel>
    decreases s,
{
    if s.len() == 0 {
        Seq::empty()
    } else {
        deep_host_values(s.drop_last()).push(s.last().deep())
    }
}

/// The entry-wise denotation of a sequence of named host values.
pub open spec fn deep_host_entries(s: Seq<(String, HostValue)>) -> Seq<(Seq<char>, HostModel)>
    decreases s,
{
    if s.len() == 0 {
        Seq::empty()
    } else {
        proof {
            assert(decreases_to!(s => s.last()));
        }
        deep_host_entries(s.drop_last()).push((s.last().0@, s.last().1.deep()))
    }
}

/// What a native value looks like to the host: scalars convert
/// structurally, sequences and records element-wise, and an entity handle
/// becomes a host wrapper object carrying the same handle.
pub open spec fn host_of(v: ValueModel) -> HostModel
    decreases v,
{
    match v {
        ValueModel::Null => HostModel::Undefined,
        ValueModel::Bool(b) => HostModel::Bool(b),
        ValueModel::Int(i) => HostModel::Int(i),
        ValueModel::Text(t) => HostModel::Text(t),
        ValueModel::List(s) => HostModel::List(host_of_all(s)),
        ValueModel::Record(s) => HostModel::Record(host_of_entries(s)),
        ValueModel::Ref(h) => HostModel::Wrapper(h),
    }
}

pub open spec fn host_of_all(s: Seq<ValueModel>) -> Seq<HostModel>
    decreases s,
{
    if s.len() == 0 {
        Seq::empty()
    } else {
        host_of_all(s.drop_last()).push(host_of(s.last()))
    }
}

pub open spec fn host_of_entries(s: Seq<(Seq<char>, ValueModel)>) -> Seq<(Seq<char>, HostModel)>
    decreases s,
{
    if s.len() == 0 {
        Seq::empty()
    } else {
        proof {
            assert(decreases_to!(s => s.last()));
        }
        host_of_entries(s.drop_last()).push((s.last().0, host_of(s.last().1)))
    }
}

/// Whether a host value is marshalable to a native value: every part of it
/// is a scalar, a sequence, a record, or a wrapper; no part is a host
/// function.
pub open spec fn host_plain(h: HostModel) -> bool
    decreases h,
{
    match h {
        HostModel::Function(_) => false,
        HostModel::List(s) => host_plain_all(s),
        HostModel::Record(s) => host_plain_entries(s),
        _ => true,
    }
}

pub open spec fn host_plain_all(s: Seq<HostModel>) -> bool
    decreases s,
{
    s.len() == 0 || (host_plain_all(s.drop_last()) && host_plain(s.last()))
}

pub open spec fn host_plain_entries(s: Seq<(Seq<char>, HostModel)>) -> bool
    decreases s,
{
    if s.len() == 0 {
        true
    } else {
        proof {
            assert(decreases_to!(s => s.last()));
        }
        host_plain_entries(s.drop_last()) && host_plain(s.last().1)
    }
}

/// What a host value marshals to on the native side, when every part of it
/// has a native counterpart; `None` exactly when it does not.
pub open spec fn native_of(h: HostModel) -> Option<ValueModel>
    decreases h,
{
    match h {
        HostModel::Undefined => Some(ValueModel::Null),
        HostModel::Bool(b) => Some(ValueModel::Bool(b)),
        HostModel::Int(i) => Some(ValueModel::Int(i)),
        HostModel::Text(t) => Some(ValueModel::Text(t)),
        HostModel::List(s) => match native_of_all(s) {
            Some(vs) => Some(ValueModel::List(vs)),
            None => None,
        },
        HostModel::Record(s) => match native_of_entries(s) {
            Some(es) => Some(ValueModel::Record(es)),
            None => None,
        },
        HostModel::Wrapper(hd) => Some(ValueModel::Ref(hd)),
        HostModel::Function(_) => None,
    }
}

pub open spec fn native_of_all(s: Seq<HostModel>) -> Option<Seq<ValueModel>>
    decreases s,
{
    if s.len() == 0 {
        Some(Seq::empty())
    } else {
        match (native_of_all(s.drop_last()), native_of(s.last())) {
            (Some(vs), Some(v)) => Some(vs.push(v)),
            _ => None,
        }
    }
}

pub open spec fn native_of_entries(s: Seq<(Seq<char>, HostModel)>) -> Option<
    Seq<(Seq<char>, ValueModel)>,
>
    decreases s,
{
    if s.len() == 0 {
        Some(Seq::empty())
    } else {
        proof {
            assert(decreases_to!(s => s.last()));
        }
        match (native_of_entries(s.drop_last()), native_of(s.last().1)) {
            (Some(es), Some(v)) => Some(es.push((s.last().0, v))),
            _ => None,
        }
    }
}

/// Marshaling toward the native side succeeds exactly on plain host values.
pub proof fn lemma_native_of_some_iff_plain(h: HostModel)
    ensures
        native_of(h) is Some <==> host_plain(h),
    decreases h,
{
    match h {
        HostModel::List(s) => lemma_native_of_all_some_iff_plain(s),
        HostModel::Record(s) => lemma_native_of_entries_some_iff_plain(s),
        _ => {},
    }
}

pub proof fn lemma_native_of_all_some_iff_plain(s: Seq<HostModel>)
    ensures
        native_of_all(s) is Some <==> host_plain_all(s),
    decreases s,
{
    if s.len() > 0 {
        lemma_native_of_all_some_iff_plain(s.drop_last());
        lemma_native_of_some_iff_plain(s.last());
    }
}

pub proof fn lemma_native_of_entries_some_iff_plain(s: Seq<(Seq<char>, HostModel)>)
    ensures
        native_of_entries(s) is Some <==> host_plain_entries(s),
    decreases s,
{
    if s.len() > 0 {
        lemma_native_of_entries_some_iff_plain(s.drop_last());
        assert(decreases_to!(s => s.last()));
        lemma_native_of_some_iff_plain(s.last().1);
    }
}

pub proof fn lemma_deep_value_entries_pointwise(s: Seq<(String, Value)>)
    ensures
        deep_value_entries(s).len() == s.len(),
        forall|i: int| 0 <= i < s.len() ==> deep_value_entries(s)[i] == (s[i].0@, s[i].1.deep()),
    decreases s,
{
    if s.len() > 0 {
        lemma_deep_value_entries_pointwise(s.drop_last());
    }
}

pub proof fn lemma_deep_host_values_pointwise(s: Seq<HostValue>)
    ensures
        deep_host_values(s).len() == s.len(),
        forall|i: int| 0 <= i < s.len() ==> deep_host_values(s)[i] == s[i].deep(),
    decreases s,
{
    if s.len() > 0 {
        lemma_deep_host_values_pointwise(s.drop_last());
    }
}

pub proof fn lemma_deep_host_entries_pointwise(s: Seq<(String, HostValue)>)
    ensures
        deep_host_entries(s).len() == s.len(),
        forall|i: int| 0 <= i < s.len() ==> deep_host_entries(s)[i] == (s[i].0@, s[i].1.deep()),
    decreases s,
{
    if s.len() > 0 {
        lemma_deep_host_entries_pointwise(s.drop_last());
    }
}

pub proof fn lemma_host_plain_all_pointwise(s: Seq<HostModel>)
    ensures
        host_plain_all(s) <==> (forall|i: int| 0 <= i < s.len() ==> host_plain(s[i])),
    decreases s,
{
    if s.len() > 0 {
        lemma_host_plain_all_pointwise(s.drop_last());
        assert forall|i: int| 0 <= i < s.len() - 1 implies s.drop_last()[i] == s[i] by {}
    }
}

pub proof fn lemma_host_plain_entries_pointwise(s: Seq<(Seq<char>, HostModel)>)
    ensures
        host_plain_entries(s) <==> (forall|i: int| 0 <= i < s.len() ==> host_plain(s[i].1)),
    decreases s,
{
    if s.len() > 0 {
        lemma_host_plain_entries_pointwise(s.drop_last());
        assert forall|i: int| 0 <= i < s.len() - 1 implies s.drop_last()[i] == s[i] by {}
    }
}

/// Round trip starting from the host: a plain host value marshals to a
/// native value, and marshaling that native value back to the host yields
/// a value structurally equal to the original; a wrapper comes back
/// carrying the same entity handle.
pub proof fn lemma_host_round_trip(h: HostModel)
    requires
        host_plain(h),
    ensures
        native_of(h) matches Some(v) && host_of(v) == h,
    decreases h,
{
    match h {
        HostModel::List(s) => {
            lemma_host_round_trip_all(s);
        },
        HostModel::Record(s) => {
            lemma_host_round_trip_entries(s);
        },
        _ => {},
    }
}

pub proof fn lemma_host_round_trip_all(s: Seq<HostModel>)
    requires
        host_plain_all(s),
    ensures
        native_of_all(s) matches Some(vs) && host_of_all(vs) == s,
    decreases s,
{
    if s.len() == 0 {
        assert(host_of_all(Seq::<ValueModel>::empty()) =~= s);
    } else {
        lemma_host_round_trip_all(s.drop_last());
        lemma_host_round_trip(s.last());
        let vs0 = native_of_all(s.drop_last())->Some_0;
        let v = native_of(s.last())->Some_0;
        assert(vs0.push(v).drop_last() =~= vs0);
        assert(host_of_all(vs0.push(v)) =~= s);
    }
}

pub proof fn lemma_host_round_trip_entries(s: Seq<(Seq<char>, HostModel)>)
    requires
        host_plain_entries(s),
    ensures
        native_of_entries(s) matches Some(es) && host_of_entries(es) == s,
    decreases s,
{
    if s.len() == 0 {
        assert(host_of_entries(Seq::<(Seq<char>, ValueModel)>::empty()) =~= s);
    } else {
        lemma_host_round_trip_entries(s.drop_last());
        assert(decreases_to!(s => s.last()));
        lemma_host_round_trip(s.last().1);
        let es0 = native_of_entries(s.drop_last())->Some_0;
        let v = native_of(s.last().1)->Some_0;
        assert(es0.push((s.last().0, v)).drop_last() =~= es0);
        assert(host_of_entries(es0.push((s.last().0, v))) =~= s);
    }
}

/// Round trip starting from the native side: marshaling any native value
/// to the host and back always succeeds and returns the same native value.
pub proof fn lemma_native_round_trip(v: ValueModel)
    ensures
        native_of(host_of(v)) == Some(v),
    decreases v,
{
    match v {
        ValueModel::List(s) => {
            lemma_native_round_trip_all(s);
        },
        ValueModel::Record(s) => {
            lemma_native_round_trip_entries(s);
        },
        _ => {},
    }
}

pub proof fn lemma_native_round_trip_all(s: Seq<ValueModel>)
    ensures
        native_of_all(host_of_all(s)) == Some(s),
    decreases s,
{
    if s.len() == 0 {
        assert(native_of_all(host_of_all(s)) == Some(Seq::<ValueModel>::empty()));
        assert(Seq::<ValueModel>::empty() =~= s);
    } else {
        lemma_native_round_trip_all(s.drop_last());
        lemma_native_round_trip(s.last());
        assert(host_of_all(s).drop_last() =~= host_of_all(s.drop_last()));
        assert(host_of_all(s).last() == host_of(s.last()));
        assert(s.drop_last().push(s.last()) =~= s);
    }
}

pub proof fn lemma_native_round_trip_entries(s: Seq<(Seq<char>, ValueModel)>)
    ensures
        native_of_entries(host_of_entries(s)) == Some(s),
    decreases s,
{
    if s.len() == 0 {
        assert(native_of_entries(host_of_entries(s)) == Some(
            Seq::<(Seq<char>, ValueModel)>::empty(),
        ));
        assert(Seq::<(Seq<char>, ValueModel)>::empty() =~= s);
    } else {
        lemma_native_round_trip_entries(s.drop_last());
        assert(decreases_to!(s => s.last()));
        lemma_native_round_trip(s.last().1);
        assert(host_of_entries(s).drop_last() =~= host_of_entries(s.drop_last()));
        assert(host_of_entries(s).last() == (s.last().0, host_of(s.last().1)));
        assert(s.drop_last().push(s.last()) =~= s);
    }
}

impl Value {
    /// Marshal a native value for the host. Total: every native value has
    /// a host counterpart; an entity handle crosses as a wrapper carrying
    /// the same handle.
    #[verifier::loop_isolation(false)]
    pub fn to_host(&self) -> (h: HostValue)
        ensures
            h.deep() == host_of(self.deep()),
        decreases *self,
    {
        match self {
            Value::Null => HostValue::Undefined,
            Value::Bool(b) => HostValue::Bool(*b),
            Value::Int(i) => HostValue::Int(*i),
            Value::Text(s) => HostValue::Text(s.clone()),
            Value::List(items) => {
                let mut out: Vec<HostValue> = Vec::new();
                let mut i: usize = 0;
                while i < items.len()
                    invariant
                        i <= items@.len(),
                        out@.len() == i,
                        deep_host_values(out@) == host_of_all(deep_values(items@.take(i as int))),
                    decreases items@.len() - i,
                {
                    proof {
                        assert(decreases_to!(items => items@));
                        assert(decreases_to!(items@ => items@[i as int]));
                    }
                    let ghost old_out = out@;
                    let ghost pfx = items@.take(i as int);
                    let h = items[i].to_host();
                    out.push(h);
                    i = i + 1;
                    proof {
                        assert(out@.drop_last() =~= old_out);
                        assert(items@.take(i as int).drop_last() =~= pfx);
                        assert(deep_values(items@.take(i as int)) == deep_values(pfx).push(
                            items@[i - 1].deep(),
                        ));
                        assert(deep_values(pfx).push(items@[i - 1].deep()).drop_last()
                            =~= deep_values(pfx));
                    }
                }
                proof {
                    assert(items@.take(i as int) =~= items@);
                }
                HostValue::List(out)
            },
            Value::Record(entries) => {
                let mut out: Vec<(String, HostValue)> = Vec::new();
                let mut i: usize = 0;
                while i < entries.len()
                    invariant
                        i <= entries@.len(),
                        out@.len() == i,
                        deep_host_entries(out@) == host_of_entries(
                            deep_value_entries(entries@.take(i as int)),
                        ),
                    decreases entries@.len() - i,
                {
                    proof {
                        assert(decreases_to!(entries => entries@));
                        assert(decreases_to!(entries@ => entries@[i as int]));
                        assert(decreases_to!(entries@[i as int] => entries@[i as int].1));
                    }
                    let ghost old_out = out@;
                    let ghost pfx = deep_value_entries(entries@.take(i as int));
                    let key = entries[i].0.clone();
                    let h = entries[i].1.to_host();
                    out.push((key, h));
                    i = i + 1;
                    proof {
                        assert(out@.drop_last() =~= old_out);
                        assert(entries@.take(i as int).drop_last() =~= entries@.take(i - 1));
                        assert(deep_value_entries(entries@.take(i as int)) == pfx.push(
                            (entries@[i - 1].0@, entries@[i - 1].1.deep()),
                        ));
                        assert(pfx.push((entries@[i - 1].0@, entries@[i - 1].1.deep())).drop_last()
                            =~= pfx);
                    }
                }
                proof {
                    assert(entries@.take(i as int) =~= entries@);
                }
                HostValue::Record(out)
            },
            Value::Ref(h) => HostValue::Wrapper(*h),
        }
    }
}

impl HostValue {
    /// Marshal a host value for the native side. Succeeds exactly when the
    /// value is plain (no part of it is a host function); a host function
    /// anywhere in the value is rejected explicitly, never silently
    /// dropped.
    #[verifier::loop_isolation(false)]
    pub fn to_native(&self) -> (r: Result<Value, BridgeError>)
        ensures
            r is Ok <==> host_plain(self.deep()),
            r matches Ok(v) ==> native_of(self.deep()) == Some(v.deep()),
            r matches Err(e) ==> e == BridgeError::MarshalUnsupportedKind,
        decreases *self,
    {
        match self {
            HostValue::Undefined => Ok(Value::Null),
            HostValue::Bool(b) => Ok(Value::Bool(*b)),
            HostValue::Int(i) => Ok(Value::Int(*i)),
            HostValue::Text(s) => Ok(Value::Text(s.clone())),
            HostValue::List(items) => {
                let mut out: Vec<Value> = Vec::new();
                let mut i: usize = 0;
                while i < items.len()
                    invariant
                        i <= items@.len(),
                        out@.len() == i,
                        native_of_all(deep_host_values(items@.take(i as int))) == Some(
                            deep_values(out@),
                        ),
                    decreases items@.len() - i,
                {
                    proof {
                        assert(decreases_to!(items => items@));
                        assert(decreases_to!(items@ => items@[i as int]));
                    }
                    let ghost old_out = out@;
                    let ghost pfx = items@.take(i as int);
                    match items[i].to_native() {
                        Ok(v) => {
                            out.push(v);
                            i = i + 1;
                            proof {
                                assert(out@.drop_last() =~= old_out);
                                assert(items@.take(i as int).drop_last() =~= pfx);
                                assert(deep_host_values(items@.take(i as int))
                                    == deep_host_values(pfx).push(items@[i - 1].deep()));
                                assert(deep_host_values(pfx).push(
                                    items@[i - 1].deep(),
                                ).drop_last() =~= deep_host_values(pfx));
                            }
                        },
                        Err(e) => {
                            proof {
                                lemma_deep_host_values_pointwise(items@);
                                lemma_host_plain_all_pointwise(deep_host_values(items@));
                                assert(deep_host_values(items@)[i as int] == items@[i as int].deep());
                            }
                            return Err(e);
                        },
                    }
                }
                proof {
                    assert(items@.take(i as int) =~= items@);
                    lemma_native_of_all_some_iff_plain(deep_host_values(items@));
                }
                Ok(Value::List(out))
            },
            HostValue::Record(entries) => {
                let mut out: Vec<(String, Value)> = Vec::new();
                let mut i: usize = 0;
                while i < entries.len()
                    invariant
                        i <= entries@.len(),
                        out@.len() == i,
                        native_of_entries(deep_host_entries(entries@.take(i as int))) == Some(
                            deep_value_entries(out@),
                        ),
                    decreases entries@.len() - i,
                {
                    proof {
                        assert(decreases_to!(entries => entries@));
                        assert(decreases_to!(entries@ => entries@[i as int]));
                        assert(decreases_to!(entries@[i as int] => entries@[i as int].1));
                    }
                    let ghost old_out = out@;
                    let ghost pfx = deep_host_entries(entries@.take(i as int));
                    let key = entries[i].0.clone();
                    match entries[i].1.to_native() {
                        Ok(v) => {
                            out.push((key, v));
                            i = i + 1;
                            proof {
                                assert(out@.drop_last() =~= old_out);
                                assert(entries@.take(i as int).drop_last() =~= entries@.take(
                                    i - 1,
                                ));
                                assert(deep_host_entries(entries@.take(i as int)) == pfx.push(
                                    (entries@[i - 1].0@, entries@[i - 1].1.deep()),
                                ));
                                assert(pfx.push(
                                    (entries@[i - 1].0@, entries@[i - 1].1.deep()),
                                ).drop_last() =~= pfx);
                                assert(deep_value_entries(out@).drop_last()
                                    =~= deep_value_entries(old_out));
                            }
                        },
                        Err(e) => {
                            proof {
                                lemma_deep_host_entries_pointwise(entries@);
                                lemma_host_plain_entries_pointwise(deep_host_entries(entries@));
                                assert(deep_host_entries(entries@)[i as int] == (
                                    entries@[i as int].0@,
                                    entries@[i as int].1.deep(),
                                ));
                            }
                            return Err(e);
                        },
                    }
                }
                proof {
                    assert(entries@.take(i as int) =~= entries@);
                    lemma_native_of_entries_some_iff_plain(deep_host_entries(entries@));
                }
                Ok(Value::Record(out))
            },
            HostValue::Wrapper(h) => Ok(Value::Ref(*h)),
            HostValue::Function(_) => Err(BridgeError::MarshalUnsupportedKind),
        }
    }
}

} // verus!

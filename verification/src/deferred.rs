//! The result unifier: a host callback may hand back an immediate value or
//! a deferred (promise-like) value that settles exactly once later. Both
//! are normalized into one deferred-result shape, so the native caller
//! always awaits a single result and never branches on which path
//! occurred.

use vstd::prelude::*;

use crate::errors::BridgeError;
use crate::value::{host_plain, lemma_native_of_some_iff_plain, native_of, HostModel, HostValue,
    Value, ValueModel};

verus! {

/// What a host callback handed back: a value, or a pending host
/// computation identified by a promise id.
#[derive(Debug, PartialEq, Eq)]
pub enum HostReturn {
    Immediate(HostValue),
    Deferred(u64),
}

/// How a pending host computation settled.
#[derive(Debug, PartialEq, Eq)]
pub enum HostSettle {
    Fulfilled(HostValue),
    Rejected(String),
}

/// The unified native result: resolved to a native value, failed, or
/// still pending on a host promise.
#[derive(Debug, PartialEq, Eq)]
pub enum DeferredResult {
    Resolved(Value),
    Failed(BridgeError),
    Pending(u64),
}

/// The mathematical shape of a host return.
pub enum ReturnModel {
    Immediate(HostModel),
    Deferred(nat),
}

/// The mathematical shape of a settlement.
pub enum SettleModel {
    Fulfilled(HostModel),
    Rejected(Seq<char>),
}

/// The mathematical shape of a unified result.
#[verifier::ext_equal]
pub enum ResultModel {
    Resolved(ValueModel),
    FailedMarshal,
    FailedRejection(Seq<char>),
    FailedOther,
    Pending(nat),
}

impl HostReturn {
    pub open spec fn deep(self) -> ReturnModel {
        match self {
            HostReturn::Immediate(h) => ReturnModel::Immediate(h.deep()),
            HostReturn::Deferred(p) => ReturnModel::Deferred(p as nat),
        }
    }
}

impl HostSettle {
    pub open spec fn deep(self) -> SettleModel {
        match self {
            HostSettle::Fulfilled(h) => SettleModel::Fulfilled(h.deep()),
            HostSettle::Rejected(m) => SettleModel::Rejected(m@),
        }
    }
}

impl DeferredResult {
    pub open spec fn deep(self) -> ResultModel {
        match self {
            DeferredResult::Resolved(v) => ResultModel::Resolved(v.deep()),
            DeferredResult::Failed(e) => match e {
                BridgeError::MarshalUnsupportedKind => ResultModel::FailedMarshal,
                BridgeError::CallbackRejection { message } => ResultModel::FailedRejection(
                    message@,
                ),
                _ => ResultModel::FailedOther,
            },
            DeferredResult::Pending(p) => ResultModel::Pending(p as nat),
        }
    }
}

/// What unifying a host return yields: an immediate value marshals now
/// (failing explicitly on an unsupported kind); a deferred value stays
/// pending until it settles.
pub open spec fn unify_spec(r: ReturnModel) -> ResultModel {
    match r {
        ReturnModel::Immediate(h) => match native_of(h) {
            Some(v) => ResultModel::Resolved(v),
            None => ResultModel::FailedMarshal,
        },
        ReturnModel::Deferred(p) => ResultModel::Pending(p),
    }
}

/// What settling does to a pending result: a fulfillment marshals the
/// settled payload; a rejection propagates the host error. A result that
/// already resolved or failed is left as it is — it settles exactly once.
pub open spec fn settle_spec(d: ResultModel, s: SettleModel) -> ResultModel {
    if d is Pending {
        match s {
            SettleModel::Fulfilled(h) => match native_of(h) {
                Some(v) => ResultModel::Resolved(v),
                None => ResultModel::FailedMarshal,
            },
            SettleModel::Rejected(m) => ResultModel::FailedRejection(m),
        }
    } else {
        d
    }
}

/// Normalize a host callback's return value into one deferred result.
pub fn unify(ret: HostReturn) -> (d: DeferredResult)
    ensures
        d.deep() == unify_spec(ret.deep()),
{
    match ret {
        HostReturn::Immediate(h) => {
            proof {
                lemma_native_of_some_iff_plain(h.deep());
            }
            match h.to_native() {
                Ok(v) => DeferredResult::Resolved(v),
                Err(e) => DeferredResult::Failed(e),
            }
        },
        HostReturn::Deferred(p) => DeferredResult::Pending(p),
    }
}

/// Apply a one-shot settlement to a pending result.
pub fn settle(d: DeferredResult, s: HostSettle) -> (d2: DeferredResult)
    requires
        d.deep() is Pending,
    ensures
        d2.deep() == settle_spec(d.deep(), s.deep()),
{
    match s {
        HostSettle::Fulfilled(h) => {
            proof {
                lemma_native_of_some_iff_plain(h.deep());
            }
            match h.to_native() {
                Ok(v) => DeferredResult::Resolved(v),
                Err(e) => DeferredResult::Failed(e),
            }
        },
        HostSettle::Rejected(message) => DeferredResult::Failed(
            (BridgeError::CallbackRejection { message }),
        ),
    }
}

/// Deferred uniformity: a host callback that returns a value immediately
/// and one that returns a deferred value later fulfilled with the same
/// value unify to the same native result.
pub proof fn lemma_deferred_uniformity(x: HostModel, p: nat)
    ensures
        unify_spec(ReturnModel::Immediate(x)) == settle_spec(
            unify_spec(ReturnModel::Deferred(p)),
            SettleModel::Fulfilled(x),
        ),
{
}

} // verus!

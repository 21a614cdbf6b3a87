//! Broadcast wake primitive: one trigger releases every currently-registered
//! waiter; a waiter that registers afterwards sees nothing from it.

use vstd::prelude::*;
use std::sync::Arc;

verus! {

/// Declares tokio::sync::Notify, the broadcast primitive this signal wraps;
/// its values are opaque here.
#[verifier::external_type_specification]
#[verifier::external_body]
pub struct ExNotify(tokio::sync::Notify);

/// Relies on tokio::sync::Notify::new: a fresh broadcast primitive with no
/// stored permit. Nothing is claimed of the opaque value.
pub assume_specification[ tokio::sync::Notify::new ]() -> tokio::sync::Notify;

/// Relies on std::sync::Arc::clone: the documentation says the clone points
/// at the same allocation as the original, so it carries the same value.
#[verifier::external_body]
fn clone_arc<T>(a: &Arc<T>) -> (r: Arc<T>)
    ensures
        r == *a,
{
    Arc::clone(a)
}

/// Relies on tokio::sync::Notify::notify_waiters: wakes every task whose
/// `notified` future is registered at the instant of the call, stores no
/// permit for later waiters, and returns nothing.
#[verifier::external_body]
fn notify_all(n: &Arc<tokio::sync::Notify>)
{
    n.notify_waiters();
}

/// A handle on a broadcast wake signal. One `wake_all` releases every party
/// currently blocked on the signal; a party that begins blocking afterwards
/// receives nothing from that call.
pub struct WakeSignal {
    inner: Arc<tokio::sync::Notify>,
}

impl WakeSignal {
    /// The primitive this handle stands for; two handles on one signal
    /// agree on it.
    pub closed spec fn spec_inner(self) -> Arc<tokio::sync::Notify> {
        self.inner
    }

    /// A fresh signal with no waiters and no stored history.
    pub(crate) fn new() -> WakeSignal {
        WakeSignal { inner: Arc::new(tokio::sync::Notify::new()) }
    }

    /// Another handle on the same underlying signal.
    pub fn duplicate(&self) -> (r: WakeSignal)
        ensures
            r == *self,
    {
        WakeSignal { inner: clone_arc(&self.inner) }
    }

    /// Release every currently-registered waiter. Producer-only: fired once
    /// per push by the owning store.
    pub(crate) fn wake_all(&self) {
        notify_all(&self.inner);
    }

    /// The underlying primitive, for a transport layer that needs to block
    /// on the signal (`notified().await`): exactly the one this handle
    /// stands for, so a waiter on it is a waiter on this signal.
    pub fn notifier(&self) -> (r: Arc<tokio::sync::Notify>)
        ensures
            r == self.spec_inner(),
    {
        clone_arc(&self.inner)
    }
}

} // verus!

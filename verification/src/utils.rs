//! Shared callback wrappers.
//!
//! [`ArcOneCallback`] is a reference-counted, clonable one-argument callback,
//! used for the user lifecycle hooks, which may be invoked from several
//! places but at most once per phase entry.  [`EventListenerHandle`] owns a
//! removal action for a registered event listener and runs it exactly once.

use std::marker::PhantomData;
use std::sync::Arc;
use vstd::prelude::*;

verus! {

/// Relies on `std::sync::Arc::clone`: the clone is the same shared value.
#[verifier::external_body]
fn arc_clone<T>(a: &Arc<T>) -> (r: Arc<T>)
    ensures
        r == *a,
{
    Arc::clone(a)
}

/// A shared callback of one argument, clonable so that several owners can
/// hold it; each holds the same function.
#[verifier::reject_recursive_types(A)]
#[verifier::reject_recursive_types(Return)]
pub struct ArcOneCallback<A, Return, F> where F: Fn(A) -> Return {
    pub f: Arc<F>,
    pub marker: PhantomData<(A, Return)>,
}

impl<A, Return, F> ArcOneCallback<A, Return, F> where F: Fn(A) -> Return {
    /// Wrap a callback for shared use.
    pub fn new(f: F) -> (r: Self)
        ensures
            r.f == f,
    {
        ArcOneCallback { f: Arc::new(f), marker: PhantomData }
    }

    /// Invoke the callback.
    pub fn call(&self, a: A) -> (r: Return)
        requires
            call_requires(*self.f, (a,)),
        ensures
            call_ensures(*self.f, (a,), r),
    {
        (*self.f)(a)
    }
}

impl<A, Return, F> Clone for ArcOneCallback<A, Return, F> where F: Fn(A) -> Return {
    fn clone(&self) -> (r: Self)
        ensures
            r.f == self.f,
    {
        ArcOneCallback { f: arc_clone(&self.f), marker: PhantomData }
    }
}

/// Owns the action that unregisters an event listener.
pub struct EventListenerHandle<F> where F: FnOnce() {
    pub f: F,
}

impl<F> EventListenerHandle<F> where F: FnOnce() {
    /// Wrap the removal action of a just-registered listener.
    pub fn new(f: F) -> (r: Self)
        ensures
            r.f == f,
    {
        EventListenerHandle { f }
    }

    /// Unregister the listener by running the stored action, consuming the
    /// handle so it cannot run twice.
    pub fn remove(self)
        requires
            call_requires(self.f, ()),
        ensures
            call_ensures(self.f, (), ()),
    {
        let EventListenerHandle { f } = self;
        f()
    }
}

} // verus!

use vstd::prelude::*;
use crate::error::Error;

verus! {

/// A registered event callback.
///
/// `Callback` receives each event by shared reference. `WithContext` also
/// receives, alongside every event, the context it was registered with
/// (a shared counter, a service), so that it can change state outside it.
pub enum Subscriber<F, C, G> {
    Callback(F),
    WithContext(C, G),
}

impl<F, C, G> Subscriber<F, C, G> {
    /// The callback can be invoked with `event`.
    pub open spec fn accepts<E>(&self, event: &E) -> bool
        where
            F: Fn(&E) -> Result<(), Error>,
            G: Fn(&E, &C) -> Result<(), Error>,
    {
        match self {
            Subscriber::Callback(f) => call_requires(*f, (event,)),
            Subscriber::WithContext(c, g) => call_requires(*g, (event, c)),
        }
    }

    /// `r` is an outcome of invoking the callback with `event`.
    pub open spec fn notified<E>(&self, event: &E, r: Result<(), Error>) -> bool
        where
            F: Fn(&E) -> Result<(), Error>,
            G: Fn(&E, &C) -> Result<(), Error>,
    {
        match self {
            Subscriber::Callback(f) => call_ensures(*f, (event,), r),
            Subscriber::WithContext(c, g) => call_ensures(*g, (event, c), r),
        }
    }

    /// Invokes the callback with `event`, and the context where there is one.
    pub fn notify<E>(&self, event: &E) -> (r: Result<(), Error>)
        where
            F: Fn(&E) -> Result<(), Error>,
            G: Fn(&E, &C) -> Result<(), Error>,
        requires
            self.accepts(event),
        ensures
            self.notified(event, r),
    {
        match self {
            Subscriber::Callback(f) => f(event),
            Subscriber::WithContext(c, g) => g(event, c),
        }
    }
}

} // verus!

use vstd::prelude::*;
use crate::error::Error;
use crate::key::TypeKey;
use crate::registry::{registered_under, HandlerRegistry, SubscriberRegistry};
use crate::subscriber::Subscriber;

verus! {

/// `subs[..n]` each returned success, and `r` is what publishing to `subs`
/// returns when it stops after them: success where they were all, else the
/// failure of `subs[n]`.
pub open spec fn stopped_after<E, F, C, G>(
    subs: Seq<Subscriber<F, C, G>>,
    event: &E,
    n: int,
    r: Result<(), Error>,
) -> bool
    where
        F: Fn(&E) -> Result<(), Error>,
        G: Fn(&E, &C) -> Result<(), Error>,
{
    &&& 0 <= n <= subs.len()
    &&& forall|j: int| 0 <= j < n ==> #[trigger] subs[j].notified(event, Ok(()))
    &&& if n == subs.len() {
        r == Ok::<(), Error>(())
    } else {
        r is Err && subs[n].notified(event, r)
    }
}

/// The hub that routes each request to its handler and each event to its
/// subscribers. Its registries are filled by a builder and are read-only
/// afterwards, so `send` and `publish` take `&self` and may be called again
/// from inside a handler or subscriber.
pub struct Mediator<H, S> {
    handlers: HandlerRegistry<H>,
    subscribers: SubscriberRegistry<S>,
}

impl<H, S> Mediator<H, S> {
    /// The handler registered under each request key.
    pub closed spec fn handlers(&self) -> Map<TypeKey, H> {
        self.handlers@
    }

    /// Every subscriber registration, in registration order.
    pub closed spec fn subscriptions(&self) -> Seq<(TypeKey, S)> {
        self.subscribers@
    }

    pub closed spec fn wf(&self) -> bool {
        self.handlers.wf()
    }

    pub(crate) fn from_registries(handlers: HandlerRegistry<H>, subscribers: SubscriberRegistry<S>) -> (r: Self)
        requires
            handlers.wf(),
        ensures
            r.wf(),
            r.handlers() == handlers@,
            r.subscriptions() == subscribers@,
    {
        Mediator { handlers, subscribers }
    }

    /// Routes `req` to the handler registered under `key` and returns what
    /// it returned, unchanged; `HandlerNotFound` where there is none.
    ///
    /// The dispatch itself never blocks: a handler that must wait answers
    /// with a future, and one that streams answers with a lazy producer of
    /// items, which the caller then drives.
    pub fn send<Req, Res>(&self, key: TypeKey, req: Req) -> (r: Result<Res, Error>)
        where
            H: Fn(Req) -> Result<Res, Error>,
        requires
            self.wf(),
            self.handlers().contains_key(key) ==> call_requires(self.handlers()[key], (req,)),
        ensures
            !self.handlers().contains_key(key) ==> r == Err::<Res, Error>(Error::HandlerNotFound),
            self.handlers().contains_key(key) ==> call_ensures(self.handlers()[key], (req,), r),
    {
        match self.handlers.lookup_handler(key) {
            Some(handler) => handler(req),
            None => Err(Error::HandlerNotFound),
        }
    }
}

impl<H, F, C, G> Mediator<H, Subscriber<F, C, G>> {
    /// Invokes each subscriber registered under `key` with `event`, one after
    /// the other in registration order. The first failure stops the rest and
    /// is returned; with no subscribers nothing is invoked and the result is
    /// success.
    pub fn publish<E>(&self, key: TypeKey, event: &E) -> (r: Result<(), Error>)
        where
            F: Fn(&E) -> Result<(), Error>,
            G: Fn(&E, &C) -> Result<(), Error>,
        requires
            forall|j: int|
                0 <= j < registered_under(self.subscriptions(), key).len()
                    ==> #[trigger] registered_under(self.subscriptions(), key)[j].accepts(event),
        ensures
            exists|n: int| #[trigger] stopped_after(registered_under(self.subscriptions(), key), event, n, r),
            registered_under(self.subscriptions(), key).len() == 0 ==> r == Ok::<(), Error>(()),
    {
        let ghost subs = registered_under(self.subscriptions(), key);
        let found = self.subscribers.lookup_subscribers(key);
        let mut j: usize = 0;
        while j < found.len()
            invariant
                subs == registered_under(self.subscriptions(), key),
                found@.len() == subs.len(),
                forall|k: int| 0 <= k < found@.len() ==> *found@[k] == subs[k],
                forall|k: int| 0 <= k < subs.len() ==> #[trigger] subs[k].accepts(event),
                j <= found@.len(),
                forall|k: int| 0 <= k < j ==> #[trigger] subs[k].notified(event, Ok(())),
            decreases found@.len() - j,
        {
            let sub: &Subscriber<F, C, G> = found[j];
            assert(*sub == subs[j as int]);
            assert(subs[j as int].accepts(event));
            let outcome = sub.notify(event);
            match outcome {
                Ok(()) => {
                    assert(outcome->Ok_0 == ());
                },
                Err(_) => {
                    assert(stopped_after(subs, event, j as int, outcome));
                    return outcome;
                },
            }
            j = j + 1;
        }
        assert(stopped_after(subs, event, j as int, Ok(())));
        Ok(())
    }
}

} // verus!

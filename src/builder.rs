use vstd::prelude::*;
use crate::error::Error;
use crate::key::TypeKey;
use crate::mediator::Mediator;
use crate::registry::{latest, lemma_latest_has, lemma_latest_other_keys, HandlerRegistry, SubscriberRegistry};
use crate::subscriber::Subscriber;

verus! {

/// How a handler registration gives its handler: ready-made, or from a
/// factory that receives a handle to the mediator being built.
pub enum HandlerSource<H, D> {
    Ready(H),
    Deferred(D),
}

/// `handler` is what `source` gives when the mediator's handle is `handle`.
pub open spec fn gives<H, D, M>(source: HandlerSource<H, D>, handle: &M, handler: H) -> bool
    where
        D: Fn(&M) -> H,
{
    match source {
        HandlerSource::Ready(h) => handler == h,
        HandlerSource::Deferred(d) => call_ensures(d, (handle,), handler),
    }
}

/// Each source of `pending` can give its handler from `handle`.
pub open spec fn resolvable<H, D, M>(pending: Seq<(TypeKey, HandlerSource<H, D>)>, handle: &M) -> bool
    where
        D: Fn(&M) -> H,
{
    forall|i: int|
        0 <= i < pending.len() ==> match #[trigger] pending[i].1 {
            HandlerSource::Ready(_) => true,
            HandlerSource::Deferred(d) => call_requires(d, (handle,)),
        }
}

/// `resolved` holds, in the same order and under the same keys, the handlers
/// that the sources of `pending` gave from `handle`.
pub open spec fn resolution<H, D, M>(
    pending: Seq<(TypeKey, HandlerSource<H, D>)>,
    handle: &M,
    resolved: Seq<(TypeKey, H)>,
) -> bool
    where
        D: Fn(&M) -> H,
{
    &&& resolved.len() == pending.len()
    &&& forall|i: int|
        0 <= i < pending.len() ==> #[trigger] resolved[i].0 == pending[i].0
            && gives(pending[i].1, handle, resolved[i].1)
}

/// The last handler registration for a key decides the handler that the
/// built mediator holds for it: an earlier one for that key is replaced,
/// whether registrations for other keys follow or not.
pub proof fn lemma_last_registration_wins<H, D, M>(
    pending: Seq<(TypeKey, HandlerSource<H, D>)>,
    key: TypeKey,
    source: HandlerSource<H, D>,
    rest: Seq<(TypeKey, HandlerSource<H, D>)>,
    handle: &M,
    resolved: Seq<(TypeKey, H)>,
)
    where
        D: Fn(&M) -> H,
    requires
        forall|i: int| 0 <= i < rest.len() ==> #[trigger] rest[i].0 != key,
        resolution(pending.push((key, source)) + rest, handle, resolved),
    ensures
        latest(resolved).contains_key(key),
        gives(source, handle, latest(resolved)[key]),
{
    let n = pending.len() as int;
    let all = pending.push((key, source)) + rest;
    let front = resolved.take(n + 1);
    let back = resolved.skip(n + 1);
    assert(resolved =~= front + back);
    assert forall|i: int| 0 <= i < back.len() implies #[trigger] back[i].0 != key by {
        assert(resolved[n + 1 + i].0 == all[n + 1 + i].0);
        assert(all[n + 1 + i] == rest[i]);
    }
    lemma_latest_other_keys(front, back, key);
    assert(resolved[n].0 == all[n].0);
    assert(all[n] == (key, source));
    assert(front.drop_last() =~= resolved.take(n));
}

/// A request type for which nothing was registered has no handler in the
/// built mediator, so `send` answers `HandlerNotFound` for it.
pub proof fn lemma_unregistered_has_no_handler<H, D, M>(
    pending: Seq<(TypeKey, HandlerSource<H, D>)>,
    key: TypeKey,
    handle: &M,
    resolved: Seq<(TypeKey, H)>,
)
    where
        D: Fn(&M) -> H,
    requires
        forall|i: int| 0 <= i < pending.len() ==> #[trigger] pending[i].0 != key,
        resolution(pending, handle, resolved),
    ensures
        !latest(resolved).contains_key(key),
{
    lemma_latest_has(resolved, key);
    assert forall|i: int| 0 <= i < resolved.len() implies #[trigger] resolved[i].0 != key by {
        assert(resolved[i].0 == pending[i].0);
    }
}

/// Gathers handler and subscriber registrations, then builds the mediator.
pub struct Builder<H, D, S> {
    handlers: Vec<(TypeKey, HandlerSource<H, D>)>,
    subscribers: SubscriberRegistry<S>,
}

impl<H, S> Mediator<H, S> {
    /// A builder with no registrations.
    pub fn builder<D>() -> (b: Builder<H, D, S>)
        ensures
            b.pending() == Seq::<(TypeKey, HandlerSource<H, D>)>::empty(),
            b.subscriptions() == Seq::<(TypeKey, S)>::empty(),
    {
        Builder::new()
    }
}

impl<H, D, S> Builder<H, D, S> {
    /// The handler registrations, in the order in which they were made.
    pub closed spec fn pending(&self) -> Seq<(TypeKey, HandlerSource<H, D>)> {
        self.handlers@
    }

    /// The subscriber registrations, in the order in which they were made.
    pub closed spec fn subscriptions(&self) -> Seq<(TypeKey, S)> {
        self.subscribers@
    }

    /// A builder with no registrations.
    pub fn new() -> (b: Self)
        ensures
            b.pending() == Seq::<(TypeKey, HandlerSource<H, D>)>::empty(),
            b.subscriptions() == Seq::<(TypeKey, S)>::empty(),
    {
        Builder { handlers: Vec::new(), subscribers: SubscriberRegistry::new() }
    }

    /// Registers a ready-made handler for the request type of `key`. A later
    /// registration for the same key replaces it.
    pub fn add_handler(self, key: TypeKey, handler: H) -> (b: Self)
        ensures
            b.pending() == self.pending().push((key, HandlerSource::Ready(handler))),
            b.subscriptions() == self.subscriptions(),
    {
        let mut b = self;
        b.handlers.push((key, HandlerSource::Ready(handler)));
        b
    }

    /// Registers a factory that makes the handler for the request type of
    /// `key` from a handle to the mediator, when the mediator is built.
    pub fn add_handler_deferred(self, key: TypeKey, factory: D) -> (b: Self)
        ensures
            b.pending() == self.pending().push((key, HandlerSource::Deferred(factory))),
            b.subscriptions() == self.subscriptions(),
    {
        let mut b = self;
        b.handlers.push((key, HandlerSource::Deferred(factory)));
        b
    }

    /// Registers a subscriber for the event type of `key`, after those
    /// registered before it.
    pub fn subscribe(self, key: TypeKey, subscriber: S) -> (b: Self)
        ensures
            b.pending() == self.pending(),
            b.subscriptions() == self.subscriptions().push((key, subscriber)),
    {
        let mut b = self;
        b.subscribers.register_subscriber(key, subscriber);
        b
    }

    /// Builds the mediator. Each deferred factory is called with `handle`,
    /// and the handlers are registered in the order of their registrations,
    /// so that for each key the last one stands. The subscribers keep their
    /// order.
    ///
    /// `handle` is what the handlers hold to reach the mediator; once it is
    /// built, the caller makes the handle lead to it.
    pub fn build<M>(self, handle: &M) -> (m: Mediator<H, S>)
        where
            D: Fn(&M) -> H,
        requires
            resolvable(self.pending(), handle),
        ensures
            m.wf(),
            exists|resolved: Seq<(TypeKey, H)>|
                #[trigger] resolution(self.pending(), handle, resolved) && m.handlers() == latest(resolved),
            m.subscriptions() == self.subscriptions(),
    {
        let ghost pending = self.pending();
        let Builder { handlers: mut sources, subscribers } = self;
        let mut registry: HandlerRegistry<H> = HandlerRegistry::new();
        let ghost mut resolved: Seq<(TypeKey, H)> = Seq::empty();
        while sources.len() > 0
            invariant
                registry.wf(),
                resolvable(pending, handle),
                resolved.len() <= pending.len(),
                sources@ == pending.skip(resolved.len() as int),
                resolution(pending.take(resolved.len() as int), handle, resolved),
                registry@ == latest(resolved),
            decreases sources@.len(),
        {
            let ghost n = resolved.len() as int;
            let (key, source) = sources.remove(0);
            assert((key, source) == pending[n]);
            let handler = match source {
                HandlerSource::Ready(h) => h,
                HandlerSource::Deferred(d) => d(handle),
            };
            registry.register_handler(key, handler);
            proof {
                let before = resolved;
                resolved = resolved.push((key, handler));
                assert(resolved.drop_last() == before);
                assert(pending.take(n + 1).drop_last() =~= pending.take(n));
                assert(resolution(pending.take(n + 1), handle, resolved));
                assert(sources@ =~= pending.skip(n + 1));
            }
        }
        proof {
            assert(pending.take(resolved.len() as int) =~= pending);
        }
        Mediator::from_registries(registry, subscribers)
    }
}

impl<H, D, F, C, G> Builder<H, D, Subscriber<F, C, G>> {
    /// Registers a callback for the event type of `key`.
    pub fn subscribe_fn(self, key: TypeKey, callback: F) -> (b: Self)
        ensures
            b.pending() == self.pending(),
            b.subscriptions() == self.subscriptions().push((key, Subscriber::Callback(callback))),
    {
        self.subscribe(key, Subscriber::Callback(callback))
    }

    /// Registers a callback for the event type of `key` that receives
    /// `context` alongside every event.
    pub fn subscribe_fn_with(self, key: TypeKey, context: C, callback: G) -> (b: Self)
        ensures
            b.pending() == self.pending(),
            b.subscriptions() == self.subscriptions().push((key, Subscriber::WithContext(context, callback))),
    {
        self.subscribe(key, Subscriber::WithContext(context, callback))
    }
}

} // verus!

use vstd::prelude::*;
use crate::key::TypeKey;

verus! {

/// The map that a sequence of registrations leaves: each key maps to the
/// value of its last registration.
pub open spec fn latest<V>(s: Seq<(TypeKey, V)>) -> Map<TypeKey, V>
    decreases s.len(),
{
    if s.len() == 0 {
        Map::empty()
    } else {
        latest(s.drop_last()).insert(s.last().0, s.last().1)
    }
}

/// The values registered under `key`, in registration order.
pub open spec fn registered_under<V>(s: Seq<(TypeKey, V)>, key: TypeKey) -> Seq<V>
    decreases s.len(),
{
    if s.len() == 0 {
        Seq::empty()
    } else if s.last().0 == key {
        registered_under(s.drop_last(), key).push(s.last().1)
    } else {
        registered_under(s.drop_last(), key)
    }
}

/// No key occurs twice.
pub open spec fn keys_unique<V>(s: Seq<(TypeKey, V)>) -> bool {
    forall|i: int, j: int| 0 <= i < j < s.len() ==> s[i].0 != s[j].0
}

/// A key is in `latest(s)` exactly when some registration carries it.
pub proof fn lemma_latest_has<V>(s: Seq<(TypeKey, V)>, key: TypeKey)
    ensures
        latest(s).contains_key(key) <==> exists|i: int| 0 <= i < s.len() && s[i].0 == key,
    decreases s.len(),
{
    if s.len() > 0 {
        lemma_latest_has(s.drop_last(), key);
        if latest(s.drop_last()).contains_key(key) {
            let i = choose|i: int| 0 <= i < s.drop_last().len() && s.drop_last()[i].0 == key;
            assert(s[i].0 == key);
        }
        if exists|i: int| 0 <= i < s.len() && s[i].0 == key {
            let i = choose|i: int| 0 <= i < s.len() && s[i].0 == key;
            if i < s.len() - 1 {
                assert(s.drop_last()[i].0 == key);
            }
        }
    }
}

/// Where keys are unique, the value at a registration's key is that
/// registration's value.
pub proof fn lemma_latest_at<V>(s: Seq<(TypeKey, V)>, i: int)
    requires
        keys_unique(s),
        0 <= i < s.len(),
    ensures
        latest(s).contains_key(s[i].0),
        latest(s)[s[i].0] == s[i].1,
    decreases s.len(),
{
    if i < s.len() - 1 {
        assert(keys_unique(s.drop_last()));
        lemma_latest_at(s.drop_last(), i);
        assert(s.drop_last()[i] == s[i]);
    }
}

/// Registrations under other keys leave a key's value as it was.
pub proof fn lemma_latest_other_keys<V>(s: Seq<(TypeKey, V)>, t: Seq<(TypeKey, V)>, key: TypeKey)
    requires
        forall|i: int| 0 <= i < t.len() ==> #[trigger] t[i].0 != key,
    ensures
        latest(s + t).contains_key(key) == latest(s).contains_key(key),
        latest(s + t)[key] == latest(s)[key],
    decreases t.len(),
{
    if t.len() > 0 {
        assert((s + t).drop_last() =~= s + t.drop_last());
        assert(t[t.len() - 1].0 != key);
        lemma_latest_other_keys(s, t.drop_last(), key);
    }
}

/// Subscribers registered one after the other under one key are found
/// under it in that order.
pub proof fn lemma_subscribers_in_order<V>(subs: Seq<V>, key: TypeKey)
    ensures
        registered_under(subs.map_values(|v: V| (key, v)), key) == subs,
    decreases subs.len(),
{
    if subs.len() > 0 {
        assert(subs.map_values(|v: V| (key, v)).drop_last() =~= subs.drop_last().map_values(|v: V| (key, v)));
        lemma_subscribers_in_order(subs.drop_last(), key);
        assert(subs.drop_last().push(subs.last()) =~= subs);
    }
}

/// The registry of request handlers: at most one handler per key.
pub struct HandlerRegistry<H> {
    entries: Vec<(TypeKey, H)>,
}

impl<H> HandlerRegistry<H> {
    /// The handler registered under each key.
    pub closed spec fn view(&self) -> Map<TypeKey, H> {
        latest(self.entries@)
    }

    pub closed spec fn wf(&self) -> bool {
        keys_unique(self.entries@)
    }

    /// An empty registry.
    pub fn new() -> (r: Self)
        ensures
            r.wf(),
            r@ == Map::<TypeKey, H>::empty(),
    {
        HandlerRegistry { entries: Vec::new() }
    }

    /// The position of the entry for `key`, if there is one.
    fn position(&self, key: TypeKey) -> (r: Option<usize>)
        requires
            self.wf(),
        ensures
            r is Some <==> self@.contains_key(key),
            r matches Some(i) ==> i < self.entries@.len() && self.entries@[i as int].0 == key
                && self@[key] == self.entries@[i as int].1,
    {
        proof {
            lemma_latest_has(self.entries@, key);
        }
        let mut i: usize = 0;
        while i < self.entries.len()
            invariant
                self.wf(),
                i <= self.entries@.len(),
                forall|j: int| 0 <= j < i ==> self.entries@[j].0 != key,
            decreases self.entries@.len() - i,
        {
            if self.entries[i].0 == key {
                proof {
                    lemma_latest_at(self.entries@, i as int);
                }
                return Some(i);
            }
            i = i + 1;
        }
        None
    }

    /// Registers `handler` under `key`, dropping the handler that was
    /// registered there before, if any.
    pub fn register_handler(&mut self, key: TypeKey, handler: H)
        requires
            old(self).wf(),
        ensures
            final(self).wf(),
            final(self)@ == old(self)@.insert(key, handler),
    {
        let ghost before = self.entries@;
        match self.position(key) {
            Some(i) => {
                self.entries.set(i, (key, handler));
                proof {
                    let after = self.entries@;
                    assert(keys_unique(after));
                    assert forall|k: TypeKey|
                        #![trigger latest(after).contains_key(k)]
                        latest(after).contains_key(k) == latest(before).insert(key, handler).contains_key(k)
                        && (latest(after).contains_key(k) ==> latest(after)[k] == latest(before).insert(key, handler)[k])
                    by {
                        lemma_latest_has(after, k);
                        lemma_latest_has(before, k);
                        if exists|j: int| 0 <= j < after.len() && after[j].0 == k {
                            let j = choose|j: int| 0 <= j < after.len() && after[j].0 == k;
                            lemma_latest_at(after, j);
                            if j != i {
                                lemma_latest_at(before, j);
                            }
                        }
                        if exists|j: int| 0 <= j < before.len() && before[j].0 == k {
                            let j = choose|j: int| 0 <= j < before.len() && before[j].0 == k;
                            assert(after[j].0 == k);
                        }
                    }
                    assert(latest(after) =~= latest(before).insert(key, handler));
                }
            },
            None => {
                self.entries.push((key, handler));
                proof {
                    let after = self.entries@;
                    assert(after.drop_last() =~= before);
                    lemma_latest_has(before, key);
                    assert(keys_unique(after));
                }
            },
        }
    }

    /// The handler registered under `key`, if any. The registry is unchanged.
    pub fn lookup_handler(&self, key: TypeKey) -> (r: Option<&H>)
        requires
            self.wf(),
        ensures
            r is Some <==> self@.contains_key(key),
            r matches Some(h) ==> *h == self@[key],
    {
        match self.position(key) {
            Some(i) => Some(&self.entries[i].1),
            None => None,
        }
    }
}

/// The registry of event subscribers: any number per key, kept in
/// registration order.
pub struct SubscriberRegistry<S> {
    entries: Vec<(TypeKey, S)>,
}

impl<S> SubscriberRegistry<S> {
    /// Every registration, in the order in which it was made.
    pub closed spec fn view(&self) -> Seq<(TypeKey, S)> {
        self.entries@
    }

    /// An empty registry.
    pub fn new() -> (r: Self)
        ensures
            r@ == Seq::<(TypeKey, S)>::empty(),
    {
        SubscriberRegistry { entries: Vec::new() }
    }

    /// Appends `subscriber` to those registered under `key`; nothing is
    /// replaced.
    pub fn register_subscriber(&mut self, key: TypeKey, subscriber: S)
        ensures
            final(self)@ == old(self)@.push((key, subscriber)),
    {
        self.entries.push((key, subscriber));
    }

    /// The subscribers registered under `key`, in registration order; empty
    /// where there are none. The registry is unchanged.
    pub fn lookup_subscribers(&self, key: TypeKey) -> (r: Vec<&S>)
        ensures
            r@.len() == registered_under(self@, key).len(),
            forall|j: int| 0 <= j < r@.len() ==> *r@[j] == registered_under(self@, key)[j],
    {
        let mut r: Vec<&S> = Vec::new();
        let mut i: usize = 0;
        while i < self.entries.len()
            invariant
                i <= self.entries@.len(),
                r@.len() == registered_under(self.entries@.take(i as int), key).len(),
                forall|j: int| 0 <= j < r@.len() ==> *r@[j] == registered_under(self.entries@.take(i as int), key)[j],
            decreases self.entries@.len() - i,
        {
            assert(self.entries@.take(i + 1).drop_last() =~= self.entries@.take(i as int));
            if self.entries[i].0 == key {
                r.push(&self.entries[i].1);
            }
            i = i + 1;
        }
        assert(self.entries@.take(i as int) =~= self.entries@);
        r
    }
}

} // verus!

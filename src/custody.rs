use vstd::prelude::*;
use std::collections::HashMap;

verus! {

/// Custody of values handed to the native engine by token.
///
/// The engine can carry only an opaque address back into a callback. Instead
/// of a raw address, each pending value is parked here under a fresh token,
/// and every path that may receive the token back (a completion, an item
/// delivery, a terminal callback, teardown) reclaims it through `reclaim`.
/// The first reclaim of a token yields the value; every later one yields
/// nothing, so a value is released exactly once.
pub struct Custody<S> {
    slots: HashMap<u64, S>,
    next_token: u64,
}

impl<S> Custody<S> {
    /// The pending values, by token.
    pub closed spec fn view(&self) -> Map<u64, S> {
        self.slots@
    }

    /// The token that the next `park` hands out.
    pub closed spec fn next(&self) -> u64 {
        self.next_token
    }

    /// Every pending token was handed out before the next one.
    pub closed spec fn wf(&self) -> bool {
        forall|t: u64| #[trigger] self.slots@.contains_key(t) ==> t < self.next_token
    }

    /// An empty table.
    pub fn new() -> (r: Custody<S>)
        ensures
            r.wf(),
            r@ == Map::<u64, S>::empty(),
            r.next() == 0,
    {
        Custody { slots: HashMap::new(), next_token: 0 }
    }

    /// Parks `value` under a token that was never handed out before. Gives
    /// `None`, and keeps the table as it was, only once every `u64` token has
    /// been used.
    pub fn park(&mut self, value: S) -> (r: Option<u64>)
        requires
            old(self).wf(),
        ensures
            final(self).wf(),
            old(self).next() == u64::MAX <==> r is None,
            r is None ==> final(self)@ == old(self)@ && final(self).next() == old(self).next(),
            r matches Some(t) ==> {
                &&& t == old(self).next()
                &&& final(self).next() == t + 1
                &&& !old(self)@.contains_key(t)
                &&& final(self)@ == old(self)@.insert(t, value)
            },
    {
        if self.next_token == u64::MAX {
            return None;
        }
        let t = self.next_token;
        self.slots.insert(t, value);
        self.next_token = t + 1;
        Some(t)
    }

    /// Takes back the value parked under `token`, if it is still pending.
    pub fn reclaim(&mut self, token: u64) -> (r: Option<S>)
        requires
            old(self).wf(),
        ensures
            final(self).wf(),
            final(self).next() == old(self).next(),
            final(self)@ == old(self)@.remove(token),
            match r {
                Some(v) => old(self)@.contains_key(token) && v == old(self)@[token] && token
                    < old(self).next(),
                None => !old(self)@.contains_key(token),
            },
    {
        self.slots.remove(&token)
    }

    /// Parks `value` again under a token that was reclaimed and is to stay in
    /// use.
    pub fn restore(&mut self, token: u64, value: S)
        requires
            old(self).wf(),
            token < old(self).next(),
        ensures
            final(self).wf(),
            final(self).next() == old(self).next(),
            final(self)@ == old(self)@.insert(token, value),
    {
        self.slots.insert(token, value);
    }

    /// Releases every value still parked under one of `tokens`, as at the
    /// teardown of the engine that held them: afterwards none of them is
    /// pending, and every other token keeps its value.
    pub fn release_all(&mut self, tokens: &[u64])
        requires
            old(self).wf(),
        ensures
            final(self).wf(),
            final(self).next() == old(self).next(),
            forall|t: u64|
                #![trigger final(self)@.contains_key(t)]
                final(self)@.contains_key(t) <==> old(self)@.contains_key(t) && !tokens@.contains(t),
            forall|t: u64|
                #![trigger final(self)@.contains_key(t)]
                final(self)@.contains_key(t) ==> final(self)@[t] == old(self)@[t],
    {
        let mut i: usize = 0;
        while i < tokens.len()
            invariant
                i <= tokens@.len(),
                self.wf(),
                self.next() == old(self).next(),
                forall|t: u64|
                    #![trigger self@.contains_key(t)]
                    self@.contains_key(t) <==> old(self)@.contains_key(t) && !tokens@.subrange(
                        0,
                        i as int,
                    ).contains(t),
                forall|t: u64|
                    #![trigger self@.contains_key(t)]
                    self@.contains_key(t) ==> self@[t] == old(self)@[t],
            decreases tokens@.len() - i,
        {
            let ghost before = self@;
            let ghost done = tokens@.subrange(0, i as int);
            let _ = self.reclaim(tokens[i]);
            assert(tokens@.subrange(0, i + 1) =~= done.push(tokens@[i as int]));
            assert forall|t: u64| #![trigger self@.contains_key(t)]
                self@.contains_key(t) <==> old(self)@.contains_key(t) && !tokens@.subrange(
                    0,
                    i + 1,
                ).contains(t) by {
                assert(before.contains_key(t) <==> old(self)@.contains_key(t) && !done.contains(t));
                assert(done.push(tokens@[i as int]).contains(t) <==> done.contains(t) || t
                    == tokens@[i as int]) by {
                    if done.contains(t) {
                        let k = choose|k: int| 0 <= k < done.len() && done[k] == t;
                        assert(done.push(tokens@[i as int])[k] == t);
                    }
                    if t == tokens@[i as int] {
                        assert(done.push(tokens@[i as int])[done.len() as int] == t);
                    }
                }
            }
            i = i + 1;
        }
        assert(tokens@.subrange(0, tokens@.len() as int) == tokens@);
    }

    /// Whether a value is still parked under `token`.
    pub fn is_pending(&self, token: u64) -> (r: bool)
        ensures
            r == self@.contains_key(token),
    {
        self.slots.contains_key(&token)
    }

    /// How many values are parked.
    pub fn len(&self) -> (r: usize)
        ensures
            r == self@.len(),
    {
        self.slots.len()
    }
}

} // verus!

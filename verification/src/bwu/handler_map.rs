//! The handlers of an upgrade, one for each medium.

use vstd::prelude::*;

use crate::bwu::channel::EndpointChannel;
use crate::bwu::handler;
use crate::bwu::handler::{BwuCall, BwuHandler};
use crate::mediums::Medium;

verus! {

/// The handlers of an upgrade, one for each medium.
pub struct HandlerMap<B> {
    entries: Vec<(Medium, B)>,
    map: Ghost<Map<Medium, B>>,
}

impl<B> View for HandlerMap<B> {
    type V = Map<Medium, B>;

    closed spec fn view(&self) -> Map<Medium, B> {
        self.map@
    }
}

/// The entries list each medium of the map once, with its handler.
spec fn lists<B>(entries: Seq<(Medium, B)>, map: Map<Medium, B>) -> bool {
    &&& forall|i: int, j: int|
        0 <= i < j < entries.len() ==> (#[trigger] entries[i]).0 != (#[trigger] entries[j]).0
    &&& forall|i: int|
        0 <= i < entries.len() ==> map.contains_key((#[trigger] entries[i]).0)
            && map[entries[i].0] == entries[i].1
    &&& forall|m: Medium| #[trigger]
        map.contains_key(m) ==> exists|i: int| 0 <= i < entries.len() && (#[trigger] entries[i]).0 == m
}

proof fn lemma_push<B>(entries: Seq<(Medium, B)>, map: Map<Medium, B>, medium: Medium, handler: B)
    requires
        lists(entries, map),
        !map.contains_key(medium),
    ensures
        lists(entries.push((medium, handler)), map.insert(medium, handler)),
{
    let more = entries.push((medium, handler));
    let bigger = map.insert(medium, handler);
    assert forall|i: int, j: int| 0 <= i < j < more.len() implies (#[trigger] more[i]).0 != (
    #[trigger] more[j]).0 by {
        if j == entries.len() {
            assert(map.contains_key(entries[i].0));
        } else {
            assert(more[i] == entries[i] && more[j] == entries[j]);
        }
    }
    assert forall|i: int| 0 <= i < more.len() implies bigger.contains_key((#[trigger] more[i]).0)
        && bigger[more[i].0] == more[i].1 by {
        if i < entries.len() {
            assert(more[i] == entries[i]);
        }
    }
    assert forall|m: Medium| #[trigger] bigger.contains_key(m) implies exists|i: int|
        0 <= i < more.len() && (#[trigger] more[i]).0 == m by {
        if m == medium {
            assert(more[entries.len() as int].0 == m);
        } else {
            assert(map.contains_key(m));
            let i = choose|i: int| 0 <= i < entries.len() && (#[trigger] entries[i]).0 == m;
            assert(more[i].0 == m);
        }
    }
}

proof fn lemma_remove<B>(entries: Seq<(Medium, B)>, map: Map<Medium, B>, at: int)
    requires
        lists(entries, map),
        0 <= at < entries.len(),
    ensures
        lists(entries.remove(at), map.remove(entries[at].0)),
{
    let fewer = entries.remove(at);
    let smaller = map.remove(entries[at].0);
    assert forall|i: int, j: int| 0 <= i < j < fewer.len() implies (#[trigger] fewer[i]).0 != (
    #[trigger] fewer[j]).0 by {
        let a = if i < at {
            i
        } else {
            i + 1
        };
        let b = if j < at {
            j
        } else {
            j + 1
        };
        assert(fewer[i] == entries[a] && fewer[j] == entries[b]);
    }
    assert forall|i: int| 0 <= i < fewer.len() implies smaller.contains_key((#[trigger] fewer[i]).0)
        && smaller[fewer[i].0] == fewer[i].1 by {
        let a = if i < at {
            i
        } else {
            i + 1
        };
        assert(fewer[i] == entries[a]);
        assert(entries[a].0 != entries[at].0);
    }
    assert forall|m: Medium| #[trigger] smaller.contains_key(m) implies exists|i: int|
        0 <= i < fewer.len() && (#[trigger] fewer[i]).0 == m by {
        assert(map.contains_key(m));
        let a = choose|i: int| 0 <= i < entries.len() && (#[trigger] entries[i]).0 == m;
        if a < at {
            assert(fewer[a].0 == m);
        } else {
            assert(fewer[a - 1].0 == m);
        }
    }
}

impl<B> HandlerMap<B> {
    #[verifier::type_invariant]
    spec fn inv(&self) -> bool {
        lists(self.entries@, self.map@)
    }

    pub fn new() -> (r: HandlerMap<B>)
        ensures
            r@ == Map::<Medium, B>::empty(),
    {
        HandlerMap { entries: Vec::new(), map: Ghost(Map::empty()) }
    }

    fn position(&self, medium: Medium) -> (r: Option<usize>)
        ensures
            match r {
                Some(i) => i < self.entries@.len() && self.entries@[i as int].0 == medium
                    && self@.contains_key(medium) && self@[medium] == self.entries@[i as int].1,
                None => !self@.contains_key(medium),
            },
    {
        proof {
            use_type_invariant(self);
        }
        let mut i: usize = 0;
        while i < self.entries.len()
            invariant
                i <= self.entries@.len(),
                lists(self.entries@, self.map@),
                forall|j: int| 0 <= j < i ==> (#[trigger] self.entries@[j]).0 != medium,
            decreases self.entries@.len() - i,
        {
            if self.entries[i].0 == medium {
                return Some(i);
            }
            i = i + 1;
        }
        None
    }

    pub fn contains_key(&self, medium: Medium) -> (r: bool)
        ensures
            r == self@.contains_key(medium),
    {
        self.position(medium).is_some()
    }

    pub fn get(&self, medium: Medium) -> (r: Option<&B>)
        ensures
            match r {
                Some(h) => self@.contains_key(medium) && *h == self@[medium],
                None => !self@.contains_key(medium),
            },
    {
        match self.position(medium) {
            Some(i) => Some(&self.entries[i].1),
            None => None,
        }
    }

    /// Takes a handler out of the map.
    pub fn remove(&mut self, medium: Medium) -> (r: Option<B>)
        ensures
            final(self)@ == old(self)@.remove(medium),
            match r {
                Some(h) => old(self)@.contains_key(medium) && h == old(self)@[medium],
                None => !old(self)@.contains_key(medium),
            },
    {
        match self.position(medium) {
            Some(i) => {
                let ghost map = self.map@;
                let mut whole: HandlerMap<B> = HandlerMap::new();
                proof {
                    use_type_invariant(&*self);
                    lemma_remove(self.entries@, map, i as int);
                }
                std::mem::swap(&mut whole, self);
                let mut entries = whole.entries;
                let (_, handler) = entries.remove(i);
                *self = HandlerMap { entries, map: Ghost(map.remove(medium)) };
                Some(handler)
            },
            None => {
                assert(self@.remove(medium) =~= self@);
                None
            },
        }
    }

    /// Puts a handler into the map, in place of the one that was there.
    pub fn insert(&mut self, medium: Medium, handler: B)
        ensures
            final(self)@ == old(self)@.insert(medium, handler),
    {
        let _ = self.remove(medium);
        let ghost map = self.map@;
        let mut whole: HandlerMap<B> = HandlerMap::new();
        proof {
            use_type_invariant(&*self);
            lemma_push(self.entries@, map, medium, handler);
            assert(old(self)@.remove(medium).insert(medium, handler) =~= old(self)@.insert(
                medium,
                handler,
            ));
        }
        std::mem::swap(&mut whole, self);
        let mut entries = whole.entries;
        entries.push((medium, handler));
        *self = HandlerMap { entries, map: Ghost(map.insert(medium, handler)) };
    }

    /// Tells every handler to revert what it has set up.
    pub fn revert_initiator_states<C: EndpointChannel>(&mut self) where B: BwuHandler<C>
        ensures
            final(self)@.dom() == old(self)@.dom(),
            forall|m: Medium| #[trigger]
                final(self)@.contains_key(m) ==> handler::view_of::<C, B>(final(self)@[m])
                    == handler::view_of::<C, B>(old(self)@[m]).after(BwuCall::RevertAll),
    {
        let ghost all = self@;
        let mut rest: HandlerMap<B> = HandlerMap::new();
        std::mem::swap(&mut rest, self);
        loop
            invariant
                all == old(self)@,
                forall|m: Medium|
                    all.contains_key(m) <==> (#[trigger] self@.contains_key(m)
                        || rest@.contains_key(m)),
                forall|m: Medium| #[trigger]
                    rest@.contains_key(m) ==> rest@[m] == all[m] && !self@.contains_key(m),
                forall|m: Medium| #[trigger]
                    self@.contains_key(m) ==> handler::view_of::<C, B>(self@[m])
                        == handler::view_of::<C, B>(all[m]).after(BwuCall::RevertAll),
            decreases rest.count(),
        {
            match rest.take_first() {
                Some((medium, handler)) => {
                    let mut handler = handler;
                    handler.revert_initiator_state();
                    self.insert(medium, handler);
                },
                None => {
                    assert(self@.dom() =~= all.dom());
                    return ;
                },
            }
        }
    }

    spec fn count(&self) -> nat {
        self.entries@.len()
    }

    fn take_first(&mut self) -> (r: Option<(Medium, B)>)
        ensures
            match r {
                Some((m, h)) => {
                    &&& old(self)@.contains_key(m)
                    &&& h == old(self)@[m]
                    &&& final(self)@ == old(self)@.remove(m)
                    &&& final(self).count() < old(self).count()
                },
                None => old(self)@ == Map::<Medium, B>::empty(),
            },
    {
        if self.entries.len() == 0 {
            proof {
                use_type_invariant(&*self);
                assert(self@ =~= Map::empty());
            }
            return None;
        }
        let medium = self.entries[0].0;
        let ghost map = self.map@;
        let mut whole: HandlerMap<B> = HandlerMap::new();
        proof {
            use_type_invariant(&*self);
            assert(map.contains_key(self.entries@[0].0));
            lemma_remove(self.entries@, map, 0);
        }
        std::mem::swap(&mut whole, self);
        let mut entries = whole.entries;
        let (_, handler) = entries.remove(0);
        *self = HandlerMap { entries, map: Ghost(map.remove(medium)) };
        Some((medium, handler))
    }
}

} // verus!

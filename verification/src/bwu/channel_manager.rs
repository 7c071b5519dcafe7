//! The channels of the connected endpoints.

use vstd::prelude::*;

use crate::bwu::channel::{
    ChannelEvent, ChannelView, DisconnectionReason, EndpointChannel, SafeDisconnectionResult,
};
use crate::bwu::client::ClientProxy;
use crate::bwu::str_map::StrMap;
use crate::mediums::Medium;

verus! {

/// A moment at which an endpoint goes from one channel to another, and what was known of
/// both channels at that moment.
pub enum Handover {
    /// The endpoint is given `next` in place of `prior`.
    Swapped { endpoint_id: Seq<char>, prior: ChannelView, next: ChannelView },
    /// `prior` has ended, and writes to `next` are let through.
    Resumed { endpoint_id: Seq<char>, prior: ChannelView, next: ChannelView },
}

/// The channels of the connected endpoints, one for each.
pub struct EndpointChannelManager<C: EndpointChannel> {
    endpoints: StrMap<C>,
    dropped: Vec<C>,
    handovers: Ghost<Seq<Handover>>,
}

impl<C: EndpointChannel> View for EndpointChannelManager<C> {
    type V = Map<Seq<char>, C>;

    closed spec fn view(&self) -> Map<Seq<char>, C> {
        self.endpoints@
    }
}

/// What is known of some channels.
pub open spec fn channels_view<C: EndpointChannel>(m: Map<Seq<char>, C>) -> Map<
    Seq<char>,
    ChannelView,
> {
    Map::new(|k: Seq<char>| m.contains_key(k), |k: Seq<char>| m[k].channel())
}

/// The channels that were dropped, once the channel of an endpoint, if it has one, is
/// dropped as it is.
pub open spec fn dropped_with<C: EndpointChannel>(
    dropped: Seq<C>,
    channels: Map<Seq<char>, C>,
    endpoint_id: Seq<char>,
) -> Seq<C> {
    if channels.contains_key(endpoint_id) {
        dropped.push(channels[endpoint_id])
    } else {
        dropped
    }
}

/// Some endpoint is connected over the local network.
pub open spec fn on_wifi_lan(channels: Map<Seq<char>, ChannelView>) -> bool {
    exists|k: Seq<char>| #[trigger] channels.contains_key(k) && channels[k].medium is WifiLan
}

impl<C: EndpointChannel> EndpointChannelManager<C> {
    /// The handovers so far.
    pub closed spec fn handovers(&self) -> Seq<Handover> {
        self.handovers@
    }

    /// The channels that were forgotten or displaced, as they were then, and not taken
    /// since. Nothing is done to them here.
    pub closed spec fn dropped(&self) -> Seq<C> {
        self.dropped@
    }

    pub fn new() -> (r: EndpointChannelManager<C>)
        ensures
            r@ == Map::<Seq<char>, C>::empty(),
            r.handovers() == Seq::<Handover>::empty(),
            r.dropped() == Seq::<C>::empty(),
    {
        EndpointChannelManager {
            endpoints: StrMap::new(),
            dropped: Vec::new(),
            handovers: Ghost(Seq::empty()),
        }
    }

    /// Takes the channels that were forgotten or displaced, the earliest first.
    pub fn take_dropped(&mut self) -> (r: Vec<C>)
        ensures
            r@ == old(self).dropped(),
            final(self)@ == old(self)@,
            final(self).handovers() == old(self).handovers(),
            final(self).dropped() == Seq::<C>::empty(),
    {
        let mut r: Vec<C> = Vec::new();
        std::mem::swap(&mut r, &mut self.dropped);
        r
    }

    /// Sets the channel of an endpoint. The one that it had, if any, is dropped and not
    /// closed.
    pub fn register_channel_for_endpoint(
        &mut self,
        _client: &ClientProxy,
        endpoint_id: &str,
        channel: C,
    )
        ensures
            final(self)@ == old(self)@.insert(endpoint_id@, channel),
            final(self).handovers() == old(self).handovers(),
            final(self).dropped() == dropped_with(
                old(self).dropped(),
                old(self)@,
                endpoint_id@,
            ),
    {
        self.put_channel_for_endpoint(endpoint_id, channel);
    }

    /// Swaps the channel of an endpoint, and gives back the one that it had.
    pub fn replace_channel_for_endpoint(
        &mut self,
        _client: &ClientProxy,
        endpoint_id: &str,
        channel: C,
        _enable_encryption: bool,
    ) -> (r: Option<C>)
        ensures
            final(self)@ == old(self)@.insert(endpoint_id@, channel),
            match r {
                Some(c) => old(self)@.contains_key(endpoint_id@) && c == old(self)@[endpoint_id@],
                None => !old(self)@.contains_key(endpoint_id@),
            },
            final(self).handovers() == if old(self)@.contains_key(endpoint_id@) {
                old(self).handovers().push(
                    Handover::Swapped {
                        endpoint_id: endpoint_id@,
                        prior: old(self)@[endpoint_id@].channel(),
                        next: channel.channel(),
                    },
                )
            } else {
                old(self).handovers()
            },
            final(self).dropped() == old(self).dropped(),
    {
        let ghost next = channel.channel();
        let prior = self.endpoints.insert(endpoint_id, channel);
        if let Some(prior) = &prior {
            self.handovers = Ghost(
                self.handovers@.push(
                    Handover::Swapped {
                        endpoint_id: endpoint_id@,
                        prior: prior.channel(),
                        next,
                    },
                ),
            );
        }
        prior
    }

    /// Lets writes to the channel of an endpoint through, now that its prior channel has
    /// ended.
    pub fn resume_channel_for_endpoint(&mut self, endpoint_id: &str, prior: &C)
        requires
            old(self)@.contains_key(endpoint_id@),
        ensures
            ({
                let next = old(self)@[endpoint_id@].channel();
                &&& channels_view(final(self)@) == channels_view(old(self)@).insert(
                    endpoint_id@,
                    next.after(ChannelEvent::Resume),
                )
                &&& final(self).handovers() == old(self).handovers().push(
                    Handover::Resumed { endpoint_id: endpoint_id@, prior: prior.channel(), next },
                )
            }),
            final(self).dropped() == old(self).dropped(),
    {
        if let Some(channel) = self.endpoints.remove(endpoint_id) {
            let mut channel = channel;
            let ghost next = channel.channel();
            self.handovers = Ghost(
                self.handovers@.push(
                    Handover::Resumed { endpoint_id: endpoint_id@, prior: prior.channel(), next },
                ),
            );
            channel.resume();
            let _ = self.endpoints.insert(endpoint_id, channel);
            assert(channels_view(self@) =~= channels_view(old(self)@).insert(
                endpoint_id@,
                next.after(ChannelEvent::Resume),
            ));
        }
    }

    pub fn get_channel_for_endpoint(&self, endpoint_id: &str) -> (r: Option<&C>)
        ensures
            match r {
                Some(c) => self@.contains_key(endpoint_id@) && *c == self@[endpoint_id@],
                None => !self@.contains_key(endpoint_id@),
            },
    {
        self.endpoints.get(endpoint_id)
    }

    /// Takes the channel of an endpoint out, to use it and put it back.
    pub fn take_channel_for_endpoint(&mut self, endpoint_id: &str) -> (r: Option<C>)
        ensures
            final(self)@ == old(self)@.remove(endpoint_id@),
            final(self).handovers() == old(self).handovers(),
            final(self).dropped() == old(self).dropped(),
            match r {
                Some(c) => old(self)@.contains_key(endpoint_id@) && c == old(self)@[endpoint_id@],
                None => !old(self)@.contains_key(endpoint_id@),
            },
    {
        self.endpoints.remove(endpoint_id)
    }

    /// Puts the channel of an endpoint back. If it has another one by now, that is dropped.
    pub fn put_channel_for_endpoint(&mut self, endpoint_id: &str, channel: C)
        ensures
            final(self)@ == old(self)@.insert(endpoint_id@, channel),
            final(self).handovers() == old(self).handovers(),
            final(self).dropped() == dropped_with(
                old(self).dropped(),
                old(self)@,
                endpoint_id@,
            ),
    {
        if let Some(displaced) = self.endpoints.insert(endpoint_id, channel) {
            self.dropped.push(displaced);
        }
    }

    /// Forgets the channel of an endpoint. It is dropped as it is: it is not closed here.
    /// Tells whether there was one.
    pub fn unregister_channel_for_endpoint(
        &mut self,
        endpoint_id: &str,
        _reason: DisconnectionReason,
        _result: SafeDisconnectionResult,
    ) -> (r: bool)
        ensures
            final(self)@ == old(self)@.remove(endpoint_id@),
            final(self).handovers() == old(self).handovers(),
            final(self).dropped() == dropped_with(
                old(self).dropped(),
                old(self)@,
                endpoint_id@,
            ),
            r == old(self)@.contains_key(endpoint_id@),
    {
        match self.endpoints.remove(endpoint_id) {
            Some(channel) => {
                self.dropped.push(channel);
                true
            },
            None => false,
        }
    }

    pub fn get_connected_endpoints_count(&self) -> (r: usize)
        ensures
            self@.dom().finite(),
            r == self@.dom().len(),
    {
        self.endpoints.len()
    }

    /// Whether some endpoint is connected over the local network.
    pub fn is_wifi_lan_connected(&self) -> (r: bool)
        ensures
            r == on_wifi_lan(channels_view(self@)),
    {
        let n: usize = self.endpoints.len();
        let ghost channels = channels_view(self@);
        let ghost keys = self.endpoints.keys();
        let mut i: usize = 0;
        while i < n
            invariant
                i <= n,
                n == keys.len(),
                keys == self.endpoints.keys(),
                channels == channels_view(self@),
                forall|j: int|
                    0 <= j < i ==> !(channels[#[trigger] keys[j]].medium is WifiLan),
            decreases n - i,
        {
            let medium = self.endpoints.value_at(i).medium();
            if medium == Medium::WifiLan {
                assert(channels.contains_key(keys[i as int]));
                return true;
            }
            i = i + 1;
        }
        assert forall|k: Seq<char>| #[trigger] channels.contains_key(k) implies !(
        channels[k].medium is WifiLan) by {
            assert(self.endpoints@.contains_key(k));
            assert(keys.contains(k));
        }
        false
    }
}

/// A channel that was registered for an endpoint, or swapped in for it, is the one that is
/// found for it, and what is found for other endpoints stays.
pub proof fn lemma_registered<C: EndpointChannel>(
    channels: Map<Seq<char>, C>,
    endpoint_id: Seq<char>,
    channel: C,
    other: Seq<char>,
)
    requires
        other != endpoint_id,
    ensures
        ({
            let after = channels.insert(endpoint_id, channel);
            &&& after.contains_key(endpoint_id)
            &&& after[endpoint_id] == channel
            &&& after.contains_key(other) == channels.contains_key(other)
            &&& channels.contains_key(other) ==> after[other] == channels[other]
        }),
{
}

/// Nothing is found for an endpoint whose channel was forgotten, and what is found for
/// other endpoints stays.
pub proof fn lemma_unregistered<C: EndpointChannel>(
    channels: Map<Seq<char>, C>,
    endpoint_id: Seq<char>,
    other: Seq<char>,
)
    requires
        other != endpoint_id,
    ensures
        ({
            let after = channels.remove(endpoint_id);
            &&& !after.contains_key(endpoint_id)
            &&& after.contains_key(other) == channels.contains_key(other)
            &&& channels.contains_key(other) ==> after[other] == channels[other]
        }),
{
}

impl<C: EndpointChannel> Default for EndpointChannelManager<C> {
    fn default() -> (r: EndpointChannelManager<C>)
        ensures
            r@ == Map::<Seq<char>, C>::empty(),
            r.handovers() == Seq::<Handover>::empty(),
            r.dropped() == Seq::<C>::empty(),
    {
        Self::new()
    }
}

} // verus!

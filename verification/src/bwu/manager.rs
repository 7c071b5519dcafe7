//! The manager of bandwidth upgrades.
//!
//! A [`BwuManager`] is a synchronous state machine that owns the channels of the
//! connected endpoints and the handlers of the mediums. What each of its functions does
//! is said in [`crate::bwu::model`].

use vstd::prelude::*;

use crate::bwu::channel::{
    ChannelEvent, ChannelView, DisconnectionReason, EndpointChannel, SafeDisconnectionResult,
};
use crate::bwu::channel_manager;
use crate::bwu::channel_manager::{EndpointChannelManager, Handover};
use crate::bwu::client::ClientProxy;
use crate::bwu::handler;
use crate::bwu::handler::{BwuCall, BwuHandler, HandlerView, IncomingSocketConnection};
use crate::bwu::handler_map::HandlerMap;
use crate::bwu::model;
use crate::bwu::model::{BwuView, Offer, Outcomes};
use crate::bwu::service_id;
use crate::bwu::service_id::{
    is_initiator_upgrade_service_id, wrap_initiator_upgrade_service_id, UNKNOWN_SERVICE_ID,
};
use crate::bwu::str_map::StrMap;
use crate::frames;
use crate::frames::{
    for_bwu_failure, for_bwu_introduction, for_bwu_introduction_ack, for_bwu_last_write,
    for_bwu_safe_to_close, for_disconnection, from_bytes, get_frame_type,
    medium_to_upgrade_path_info_medium, upgrade_path_info_medium_to_medium, Exception,
};
use crate::mediums::Medium;
use crate::proto as pb;
use crate::proto::bandwidth_upgrade_negotiation_frame as bwu;
use crate::proto::bandwidth_upgrade_negotiation_frame::upgrade_path_info as upi;
use crate::text;
use crate::wire;

verus! {

/// How upgrades are done. Delays are in milliseconds.
#[derive(Clone, Copy, Debug, PartialEq, Eq, Structural)]
pub struct BwuConfig {
    /// Each endpoint has a medium of its own, rather than one for all.
    pub support_multiple_bwu_mediums: bool,
    /// The delay of a retry doubles each time, rather than growing by the first one.
    pub use_exp_backoff_in_bwu_retry: bool,
    pub exp_backoff_initial_delay_millis: u64,
    pub exp_backoff_max_delay_millis: u64,
    pub linear_initial_delay_millis: u64,
    pub linear_max_delay_millis: u64,
}

impl BwuConfig {
    /// The delay of the first retry.
    pub open spec fn spec_initial_delay(self) -> u64 {
        if self.use_exp_backoff_in_bwu_retry {
            self.exp_backoff_initial_delay_millis
        } else {
            self.linear_initial_delay_millis
        }
    }

    /// The longest delay of a retry.
    pub open spec fn spec_max_delay(self) -> u64 {
        if self.use_exp_backoff_in_bwu_retry {
            self.exp_backoff_max_delay_millis
        } else {
            self.linear_max_delay_millis
        }
    }

    #[verifier::when_used_as_spec(spec_initial_delay)]
    pub fn initial_delay(self) -> (r: u64)
        ensures
            r == self.spec_initial_delay(),
    {
        if self.use_exp_backoff_in_bwu_retry {
            self.exp_backoff_initial_delay_millis
        } else {
            self.linear_initial_delay_millis
        }
    }

    #[verifier::when_used_as_spec(spec_max_delay)]
    pub fn max_delay(self) -> (r: u64)
        ensures
            r == self.spec_max_delay(),
    {
        if self.use_exp_backoff_in_bwu_retry {
            self.exp_backoff_max_delay_millis
        } else {
            self.linear_max_delay_millis
        }
    }
}

impl Default for BwuConfig {
    fn default() -> (r: BwuConfig)
        ensures
            r == (BwuConfig {
                support_multiple_bwu_mediums: true,
                use_exp_backoff_in_bwu_retry: true,
                exp_backoff_initial_delay_millis: 3_000,
                exp_backoff_max_delay_millis: 300_000,
                linear_initial_delay_millis: 5_000,
                linear_max_delay_millis: 10_000,
            }),
    {
        BwuConfig {
            support_multiple_bwu_mediums: true,
            use_exp_backoff_in_bwu_retry: true,
            exp_backoff_initial_delay_millis: 3_000,
            exp_backoff_max_delay_millis: 300_000,
            linear_initial_delay_millis: 5_000,
            linear_max_delay_millis: 10_000,
        }
    }
}

/// The manager of bandwidth upgrades.
pub struct BwuManager<C: EndpointChannel, B: BwuHandler<C>> {
    config: BwuConfig,
    ecm: EndpointChannelManager<C>,
    handlers: HandlerMap<B>,
    medium: Medium,
    endpoint_id_to_bwu_medium: StrMap<Medium>,
    in_progress_upgrades: StrMap<()>,
    previous_endpoint_channels: StrMap<C>,
    successfully_upgraded_endpoints: StrMap<()>,
    retry_delays: StrMap<u64>,
    retry_alarms: StrMap<u64>,
    retired: Vec<C>,
}

/// What is known of some handlers.
pub open spec fn handlers_view<C: EndpointChannel, B: BwuHandler<C>>(m: Map<Medium, B>) -> Map<
    Medium,
    HandlerView,
> {
    Map::new(|k: Medium| m.contains_key(k), |k: Medium| handler::view_of::<C, B>(m[k]))
}

/// What is known of a list of channels.
pub open spec fn channel_list<C: EndpointChannel>(s: Seq<C>) -> Seq<ChannelView> {
    Seq::new(s.len(), |i: int| s[i].channel())
}

impl<C: EndpointChannel, B: BwuHandler<C>> View for BwuManager<C, B> {
    type V = BwuView;

    closed spec fn view(&self) -> BwuView {
        BwuView {
            config: self.config,
            channels: channel_manager::channels_view(self.ecm@),
            handlers: handlers_view::<C, B>(self.handlers@),
            medium: self.medium,
            mediums: self.endpoint_id_to_bwu_medium@,
            in_progress: self.in_progress_upgrades@.dom(),
            previous: channel_manager::channels_view(self.previous_endpoint_channels@),
            early: self.successfully_upgraded_endpoints@.dom(),
            retry_delays: self.retry_delays@,
            alarms: self.retry_alarms@,
            retired: channel_list(self.retired@),
            dropped: channel_list(self.ecm.dropped()),
            handovers: self.ecm.handovers(),
        }
    }
}

impl<C: EndpointChannel, B: BwuHandler<C>> BwuManager<C, B> {
    pub fn new(
        ecm: EndpointChannelManager<C>,
        handlers: HandlerMap<B>,
        config: BwuConfig,
    ) -> (r: BwuManager<C, B>)
        ensures
            r@ == (BwuView {
                config,
                channels: channel_manager::channels_view(ecm@),
                handlers: handlers_view::<C, B>(handlers@),
                medium: Medium::UnknownMedium,
                mediums: Map::empty(),
                in_progress: Set::empty(),
                previous: Map::empty(),
                early: Set::empty(),
                retry_delays: Map::empty(),
                alarms: Map::empty(),
                retired: Seq::empty(),
                dropped: channel_list(ecm.dropped()),
                handovers: ecm.handovers(),
            }),
    {
        let r = BwuManager {
            config,
            ecm,
            handlers,
            medium: Medium::UnknownMedium,
            endpoint_id_to_bwu_medium: StrMap::new(),
            in_progress_upgrades: StrMap::new(),
            previous_endpoint_channels: StrMap::new(),
            successfully_upgraded_endpoints: StrMap::new(),
            retry_delays: StrMap::new(),
            retry_alarms: StrMap::new(),
            retired: Vec::new(),
        };
        assert(r@.previous =~= Map::empty());
        assert(r@.retired =~= Seq::empty());
        assert(r@.in_progress =~= Set::empty());
        assert(r@.early =~= Set::empty());
        r
    }

    /// Does nothing: the manager is synchronous.
    pub fn make_single_threaded_for_testing(&mut self)
        ensures
            final(self)@ == old(self)@,
    {
    }

    pub fn is_upgrade_ongoing(&self, endpoint_id: &str) -> (r: bool)
        ensures
            r == self@.in_progress.contains(endpoint_id@),
    {
        self.in_progress_upgrades.contains_key(endpoint_id)
    }

    // -----------------------------------------------------------------------
    // Parts of a step
    // -----------------------------------------------------------------------

    fn get_bwu_medium_for_endpoint(&self, endpoint_id: &str) -> (r: Medium)
        ensures
            r == self@.bwu_medium(endpoint_id@),
    {
        if self.config.support_multiple_bwu_mediums {
            match self.endpoint_id_to_bwu_medium.get(endpoint_id) {
                Some(m) => *m,
                None => Medium::UnknownMedium,
            }
        } else {
            self.medium
        }
    }

    fn set_bwu_medium_for_endpoint(&mut self, endpoint_id: &str, medium: Medium)
        ensures
            final(self)@ == old(self)@.with_bwu_medium(endpoint_id@, medium),
    {
        if self.config.support_multiple_bwu_mediums {
            let _ = self.endpoint_id_to_bwu_medium.insert(endpoint_id, medium);
        } else {
            self.medium = medium;
        }
    }

    /// Whether joining the medium would tear down the local network.
    fn tears_down_wifi_lan(&self, medium: Medium) -> (r: bool)
        ensures
            r == self@.tears_down_wifi_lan(medium),
    {
        (medium == Medium::WifiHotspot || medium == Medium::WifiDirect)
            && self.ecm.is_wifi_lan_connected()
    }

    fn has_handler_for_medium(&self, medium: Medium) -> (r: bool)
        ensures
            r == self@.has_handler(medium),
    {
        medium != Medium::UnknownMedium && self.handlers.contains_key(medium)
    }

    fn set_in_progress(&mut self, endpoint_id: &str)
        ensures
            final(self)@ == (BwuView {
                in_progress: old(self)@.in_progress.insert(endpoint_id@),
                ..old(self)@
            }),
    {
        let _ = self.in_progress_upgrades.insert(endpoint_id, ());
        assert(self@.in_progress =~= old(self)@.in_progress.insert(endpoint_id@));
    }

    fn clear_in_progress(&mut self, endpoint_id: &str)
        ensures
            final(self)@ == (BwuView {
                in_progress: old(self)@.in_progress.remove(endpoint_id@),
                ..old(self)@
            }),
    {
        let _ = self.in_progress_upgrades.remove(endpoint_id);
        assert(self@.in_progress =~= old(self)@.in_progress.remove(endpoint_id@));
    }

    fn set_early(&mut self, endpoint_id: &str)
        ensures
            final(self)@ == (BwuView {
                early: old(self)@.early.insert(endpoint_id@),
                ..old(self)@
            }),
    {
        let _ = self.successfully_upgraded_endpoints.insert(endpoint_id, ());
        assert(self@.early =~= old(self)@.early.insert(endpoint_id@));
    }

    /// Tells whether the endpoint was early, and forgets it.
    fn clear_early(&mut self, endpoint_id: &str) -> (r: bool)
        ensures
            r == old(self)@.early.contains(endpoint_id@),
            final(self)@ == (BwuView {
                early: old(self)@.early.remove(endpoint_id@),
                ..old(self)@
            }),
    {
        let r = self.successfully_upgraded_endpoints.remove(endpoint_id).is_some();
        assert(self@.early =~= old(self)@.early.remove(endpoint_id@));
        r
    }

    fn cancel_alarm(&mut self, endpoint_id: &str) -> (r: bool)
        ensures
            r == old(self)@.alarms.contains_key(endpoint_id@),
            final(self)@ == (BwuView {
                alarms: old(self)@.alarms.remove(endpoint_id@),
                ..old(self)@
            }),
    {
        self.retry_alarms.remove(endpoint_id).is_some()
    }

    fn retire(&mut self, channel: C)
        ensures
            final(self)@ == old(self)@.retire(channel.channel()),
    {
        self.retired.push(channel);
        assert(self@.retired =~= old(self)@.retired.push(channel.channel()));
    }

    /// Takes the prior channel of an endpoint.
    fn take_previous(&mut self, endpoint_id: &str) -> (r: Option<C>)
        ensures
            final(self)@ == (BwuView {
                previous: old(self)@.previous.remove(endpoint_id@),
                ..old(self)@
            }),
            match r {
                Some(c) => old(self)@.previous.contains_key(endpoint_id@) && c.channel() == old(
                    self,
                )@.previous[endpoint_id@],
                None => !old(self)@.previous.contains_key(endpoint_id@),
            },
    {
        let r = self.previous_endpoint_channels.remove(endpoint_id);
        assert(self@.previous =~= old(self)@.previous.remove(endpoint_id@));
        r
    }

    fn put_previous(&mut self, endpoint_id: &str, channel: C)
        ensures
            final(self)@ == (BwuView {
                previous: old(self)@.previous.insert(endpoint_id@, channel.channel()),
                ..old(self)@
            }),
    {
        let _ = self.previous_endpoint_channels.insert(endpoint_id, channel);
        assert(self@.previous =~= old(self)@.previous.insert(endpoint_id@, channel.channel()));
    }

    fn drop_previous(&mut self, endpoint_id: &str, reason: DisconnectionReason)
        ensures
            final(self)@ == old(self)@.drop_previous(endpoint_id@, reason),
    {
        match self.take_previous(endpoint_id) {
            Some(prev) => {
                let mut prev = prev;
                prev.close_with_reason(reason);
                self.retire(prev);
            },
            None => {
                assert(self@.previous =~= old(self)@.previous);
            },
        }
    }

    /// Takes the channel of an endpoint.
    fn take_channel(&mut self, endpoint_id: &str) -> (r: Option<C>)
        ensures
            final(self)@ == (BwuView {
                channels: old(self)@.channels.remove(endpoint_id@),
                ..old(self)@
            }),
            match r {
                Some(c) => old(self)@.channels.contains_key(endpoint_id@) && c.channel() == old(
                    self,
                )@.channels[endpoint_id@],
                None => !old(self)@.channels.contains_key(endpoint_id@) && final(self)@ == old(
                    self,
                )@,
            },
    {
        let r = self.ecm.take_channel_for_endpoint(endpoint_id);
        assert(self@.channels =~= old(self)@.channels.remove(endpoint_id@));
        proof {
            if r is None {
                assert(self@.channels =~= old(self)@.channels);
            }
        }
        r
    }

    fn put_channel(&mut self, endpoint_id: &str, channel: C)
        requires
            !old(self)@.channels.contains_key(endpoint_id@),
        ensures
            final(self)@ == (BwuView {
                channels: old(self)@.channels.insert(endpoint_id@, channel.channel()),
                ..old(self)@
            }),
    {
        self.ecm.put_channel_for_endpoint(endpoint_id, channel);
        assert(self@.channels =~= old(self)@.channels.insert(endpoint_id@, channel.channel()));
    }

    /// What is needed of the channel of an endpoint: its medium, its service, and the
    /// local endpoint id.
    fn channel_info(&self, endpoint_id: &str) -> (r: Option<(Medium, String, String)>)
        ensures
            match r {
                Some((medium, service_id, local_endpoint_id)) => {
                    &&& self@.channels.contains_key(endpoint_id@)
                    &&& medium == self@.channels[endpoint_id@].medium
                    &&& service_id@ == self@.channels[endpoint_id@].service_id
                    &&& local_endpoint_id@ == self@.channels[endpoint_id@].local_endpoint_id()
                },
                None => !self@.channels.contains_key(endpoint_id@),
            },
    {
        match self.ecm.get_channel_for_endpoint(endpoint_id) {
            Some(c) => Some((c.medium(), c.service_id(), c.local_endpoint_id())),
            None => None,
        }
    }

    /// Writes to the channel of an endpoint.
    fn write_to(&mut self, endpoint_id: &str, data: &[u8]) -> (r: Exception)
        requires
            old(self)@.channels.contains_key(endpoint_id@),
        ensures
            r == old(self)@.channels[endpoint_id@].writes(r),
            final(self)@ == old(self)@.used(endpoint_id@, ChannelEvent::Write(data@, r)),
    {
        match self.take_channel(endpoint_id) {
            Some(channel) => {
                let mut channel = channel;
                let r = channel.write(data);
                self.put_channel(endpoint_id, channel);
                assert(self@.channels =~= old(self)@.used(
                    endpoint_id@,
                    ChannelEvent::Write(data@, r),
                ).channels);
                r
            },
            None => Exception::Failed,
        }
    }

    fn close_channel(&mut self, endpoint_id: &str, reason: DisconnectionReason)
        requires
            old(self)@.channels.contains_key(endpoint_id@),
        ensures
            final(self)@ == old(self)@.used(endpoint_id@, ChannelEvent::CloseWithReason(reason)),
    {
        if let Some(channel) = self.take_channel(endpoint_id) {
            let mut channel = channel;
            channel.close_with_reason(reason);
            self.put_channel(endpoint_id, channel);
            assert(self@.channels =~= old(self)@.used(
                endpoint_id@,
                ChannelEvent::CloseWithReason(reason),
            ).channels);
        }
    }

    fn resume_channel(&mut self, endpoint_id: &str)
        requires
            old(self)@.channels.contains_key(endpoint_id@),
        ensures
            final(self)@ == old(self)@.used(endpoint_id@, ChannelEvent::Resume),
    {
        if let Some(channel) = self.take_channel(endpoint_id) {
            let mut channel = channel;
            channel.resume();
            self.put_channel(endpoint_id, channel);
            assert(self@.channels =~= old(self)@.used(endpoint_id@, ChannelEvent::Resume).channels);
        }
    }

    /// Takes the handler of a medium.
    fn take_handler(&mut self, medium: Medium) -> (r: Option<B>)
        ensures
            final(self)@ == (BwuView {
                handlers: old(self)@.handlers.remove(medium),
                ..old(self)@
            }),
            match r {
                Some(h) => old(self)@.handlers.contains_key(medium) && handler::view_of::<C, B>(
                    h,
                ) == old(self)@.handlers[medium],
                None => !old(self)@.handlers.contains_key(medium),
            },
    {
        let r = self.handlers.remove(medium);
        assert(self@.handlers =~= old(self)@.handlers.remove(medium));
        r
    }

    fn put_handler(&mut self, medium: Medium, handler: B)
        ensures
            final(self)@ == (BwuView {
                handlers: old(self)@.handlers.insert(
                    medium,
                    handler::view_of::<C, B>(handler),
                ),
                ..old(self)@
            }),
    {
        self.handlers.insert(medium, handler);
        assert(self@.handlers =~= old(self)@.handlers.insert(
            medium,
            handler::view_of::<C, B>(handler),
        ));
    }

    fn initialize_medium(
        &mut self,
        medium: Medium,
        client: &ClientProxy,
        service_id: &str,
        endpoint_id: &str,
    ) -> (r: Vec<u8>)
        requires
            old(self)@.handlers.contains_key(medium),
        ensures
            r@ == old(self)@.handlers[medium].replies.offers(
                client@,
                service_id@,
                endpoint_id@,
                r@,
            ),
            final(self)@ == old(self)@.called(
                medium,
                BwuCall::Initialize {
                    client: client@,
                    service_id: service_id@,
                    endpoint_id: endpoint_id@,
                    frame: r@,
                },
            ),
    {
        match self.take_handler(medium) {
            Some(h) => {
                let mut h = h;
                let r = h.initialize_upgraded_medium_for_endpoint(client, service_id, endpoint_id);
                self.put_handler(medium, h);
                assert(self@.handlers =~= old(self)@.handlers.insert(
                    medium,
                    handler::view_of::<C, B>(h),
                ));
                r
            },
            None => Vec::new(),
        }
    }

    fn create_channel(
        &mut self,
        medium: Medium,
        client: &ClientProxy,
        service_id: &str,
        endpoint_id: &str,
        upgrade_path_info: &bwu::UpgradePathInfo,
    ) -> (r: Option<C>)
        requires
            old(self)@.handlers.contains_key(medium),
        ensures
            handler::channel_of(r) == old(self)@.handlers[medium].replies.creates(
                client@,
                service_id@,
                endpoint_id@,
                upgrade_path_info@,
                handler::channel_of(r),
            ),
            final(self)@ == old(self)@.called(
                medium,
                BwuCall::Create {
                    client: client@,
                    service_id: service_id@,
                    endpoint_id: endpoint_id@,
                    info: upgrade_path_info@,
                    channel: handler::channel_of(r),
                },
            ),
    {
        match self.take_handler(medium) {
            Some(h) => {
                let mut h = h;
                let r = h.create_upgraded_endpoint_channel(
                    client,
                    service_id,
                    endpoint_id,
                    upgrade_path_info,
                );
                self.put_handler(medium, h);
                assert(self@.handlers =~= old(self)@.handlers.insert(
                    medium,
                    handler::view_of::<C, B>(h),
                ));
                r
            },
            None => None,
        }
    }

    fn tell_disconnect(&mut self, medium: Medium, client: &ClientProxy, endpoint_id: &str)
        requires
            old(self)@.handlers.contains_key(medium),
        ensures
            final(self)@ == old(self)@.called(
                medium,
                BwuCall::Disconnect { client: client@, endpoint_id: endpoint_id@ },
            ),
    {
        if let Some(h) = self.take_handler(medium) {
            let mut h = h;
            h.on_endpoint_disconnect(client, endpoint_id);
            self.put_handler(medium, h);
            assert(self@.handlers =~= old(self)@.handlers.insert(
                medium,
                handler::view_of::<C, B>(h),
            ));
        }
    }

    // -----------------------------------------------------------------------
    // Reverting
    // -----------------------------------------------------------------------

    fn revert_bwu_medium_for_endpoint(&mut self, service_id: &str, endpoint_id: &str)
        ensures
            final(self)@ == old(self)@.revert(service_id@, endpoint_id@),
    {
        let medium = self.get_bwu_medium_for_endpoint(endpoint_id);
        let has_handler = self.has_handler_for_medium(medium);
        if !self.config.support_multiple_bwu_mediums {
            self.medium = Medium::UnknownMedium;
            if has_handler {
                if let Some(h) = self.take_handler(medium) {
                    let mut h = h;
                    h.revert_initiator_state();
                    self.put_handler(medium, h);
                    assert(self@.handlers =~= old(self)@.handlers.insert(
                        medium,
                        handler::view_of::<C, B>(h),
                    ));
                }
            }
            return ;
        }
        let _ = self.endpoint_id_to_bwu_medium.remove(endpoint_id);
        if !has_handler {
            return ;
        }
        if !is_initiator_upgrade_service_id(service_id) {
            if medium == Medium::WifiHotspot || medium == Medium::WifiDirect {
                if let Some(h) = self.take_handler(medium) {
                    let mut h = h;
                    h.revert_responder_state(service_id);
                    self.put_handler(medium, h);
                    assert(self@.handlers =~= old(self)@.handlers.insert(
                        medium,
                        handler::view_of::<C, B>(h),
                    ));
                }
            }
            return ;
        }
        if let Some(h) = self.take_handler(medium) {
            let mut h = h;
            h.revert_initiator_state_for_endpoint(service_id, endpoint_id);
            self.put_handler(medium, h);
            assert(self@.handlers =~= old(self)@.handlers.insert(
                medium,
                handler::view_of::<C, B>(h),
            ));
        }
    }

    // -----------------------------------------------------------------------
    // Offering
    // -----------------------------------------------------------------------

    /// Offers a medium. Tells whether it was tried and failed.
    fn attempt(&mut self, client: &ClientProxy, endpoint_id: &str, medium: Medium) -> (r: (
        bool,
        Ghost<Offer>,
    ))
        ensures
            (final(self)@, r.0) == old(self)@.attempt(client@, endpoint_id@, medium, r.1@),
    {
        let ghost nothing = Offer { frame: Seq::empty(), write: Exception::Success };
        if self.tears_down_wifi_lan(medium) {
            return (false, Ghost(nothing));
        }
        self.set_bwu_medium_for_endpoint(endpoint_id, medium);
        if !self.has_handler_for_medium(medium) {
            return (false, Ghost(nothing));
        }
        if self.is_upgrade_ongoing(endpoint_id) {
            return (false, Ghost(nothing));
        }
        let _ = self.cancel_alarm(endpoint_id);
        let (channel_medium, service_id, _) = match self.channel_info(endpoint_id) {
            Some(info) => info,
            None => return (false, Ghost(nothing)),
        };
        if medium == channel_medium {
            return (false, Ghost(nothing));
        }
        let bytes = self.initialize_medium(medium, client, service_id.as_str(), endpoint_id);
        if bytes.len() == 0 {
            return (true, Ghost(Offer { frame: bytes@, write: Exception::Success }));
        }
        let written = self.write_to(endpoint_id, bytes.as_slice());
        let ghost offer = Offer { frame: bytes@, write: written };
        if !written.ok() {
            return (true, Ghost(offer));
        }
        self.set_in_progress(endpoint_id);
        (false, Ghost(offer))
    }

    /// Starts an upgrade of an endpoint to `new_medium`.
    pub fn initiate_bwu_for_endpoint(
        &mut self,
        client: &mut ClientProxy,
        endpoint_id: &str,
        new_medium: Medium,
    )
        ensures
            final(client)@ == old(client)@,
            exists|offers: Seq<Offer>|
                final(self)@ == #[trigger] old(self)@.initiated(
                    old(client)@,
                    endpoint_id@,
                    new_medium,
                    offers,
                ),
    {
        let (failed, Ghost(offer)) = self.attempt(client, endpoint_id, new_medium);
        let ghost mut rest: Seq<Offer> = Seq::empty();
        if failed {
            let info = upgrade_path_info_for_medium(new_medium);
            let Ghost(more) = self.process_upgrade_failure_event(client, endpoint_id, &info);
            proof {
                rest = more;
            }
        }
        proof {
            let offers = seq![offer] + rest;
            assert(offers.drop_first() =~= rest);
            assert(self@ == old(self)@.initiated(client@, endpoint_id@, new_medium, offers));
        }
    }

    /// Gives up the medium of a failed upgrade. Tells whether another may be tried.
    fn fall_back(&mut self, endpoint_id: &str) -> (r: bool)
        ensures
            (final(self)@, r) == old(self)@.fall_back(endpoint_id@),
    {
        self.clear_in_progress(endpoint_id);
        let count: usize = self.ecm.get_connected_endpoints_count();
        assert(self@.channels.dom() =~= self.ecm@.dom());
        if !self.config.support_multiple_bwu_mediums && count > 1 {
            return false;
        }
        if self.get_bwu_medium_for_endpoint(endpoint_id) != Medium::UnknownMedium {
            let service_id = match self.channel_info(endpoint_id) {
                Some((_, service_id, _)) => service_id,
                None => UNKNOWN_SERVICE_ID.to_owned(),
            };
            let upgrade_service_id = wrap_initiator_upgrade_service_id(service_id.as_str());
            self.revert_bwu_medium_for_endpoint(upgrade_service_id.as_str(), endpoint_id);
        }
        true
    }

    /// The peer could not be upgraded to the medium of `upgrade_path_info`.
    fn process_upgrade_failure_event(
        &mut self,
        client: &ClientProxy,
        endpoint_id: &str,
        upgrade_path_info: &bwu::UpgradePathInfo,
    ) -> (r: Ghost<Seq<Offer>>)
        ensures
            final(self)@ == old(self)@.failed(client@, endpoint_id@, upgrade_path_info@, r@),
    {
        if !self.fall_back(endpoint_id) {
            return Ghost(Seq::empty());
        }
        let all = client.upgrade_mediums(endpoint_id);
        let mediums = untried_mediums(all.as_slice(), upi_medium(upgrade_path_info));
        self.try_next_best_upgrade_mediums(client, endpoint_id, mediums.as_slice())
    }

    fn choose_best_upgrade_medium(&self, endpoint_id: &str, mediums: &[Medium]) -> (r: Medium)
        ensures
            r == self@.best_medium(endpoint_id@, mediums@),
            mediums@.len() == 0 ==> r is UnknownMedium,
    {
        let current = self.get_bwu_medium_for_endpoint(endpoint_id);
        let mut i: usize = 0;
        assert(mediums@.skip(0) =~= mediums@);
        while i < mediums.len()
            invariant
                i <= mediums@.len(),
                current == self@.bwu_medium(endpoint_id@),
                current is UnknownMedium ==> self@.first_available(mediums@)
                    == self@.first_available(mediums@.skip(i as int)),
                forall|j: int|
                    0 <= j < i ==> !(#[trigger] mediums@[j] == current && self@.has_handler(
                        current,
                    )),
            decreases mediums@.len() - i,
        {
            let medium = mediums[i];
            assert(mediums@.skip(i as int).drop_first() =~= mediums@.skip(i + 1));
            if self.has_handler_for_medium(medium) && (current == Medium::UnknownMedium || current
                == medium) {
                assert(mediums@.contains(medium));
                return medium;
            }
            i = i + 1;
        }
        assert(mediums@.skip(i as int) =~= Seq::empty());
        Medium::UnknownMedium
    }

    /// Tries the mediums until one is offered, or none is left.
    fn try_next_best_upgrade_mediums(
        &mut self,
        client: &ClientProxy,
        endpoint_id: &str,
        mediums: &[Medium],
    ) -> (r: Ghost<Seq<Offer>>)
        ensures
            final(self)@ == old(self)@.try_next(client@, endpoint_id@, mediums@, r@),
        decreases mediums@.len(),
    {
        let next_medium = self.choose_best_upgrade_medium(endpoint_id, mediums);
        let current_medium = match self.channel_info(endpoint_id) {
            Some((medium, _, _)) => medium,
            None => Medium::UnknownMedium,
        };
        if current_medium != Medium::WifiLan && (next_medium == current_medium || next_medium
            == Medium::UnknownMedium) {
            self.retry_upgrades_after_delay(endpoint_id);
            return Ghost(Seq::empty());
        }
        if next_medium == Medium::UnknownMedium {
            return Ghost(Seq::empty());
        }
        let (failed, Ghost(offer)) = self.attempt(client, endpoint_id, next_medium);
        let ghost mut rest: Seq<Offer> = Seq::empty();
        if failed {
            if self.fall_back(endpoint_id) {
                let info = upgrade_path_info_for_medium(next_medium);
                let tried = upi_medium(&info);
                proof {
                    model::lemma_untried_shorter(mediums@, tried);
                }
                let left = untried_mediums(mediums, tried);
                let Ghost(more) = self.try_next_best_upgrade_mediums(
                    client,
                    endpoint_id,
                    left.as_slice(),
                );
                proof {
                    rest = more;
                }
            }
        }
        proof {
            let offers = seq![offer] + rest;
            assert(offers.drop_first() =~= rest);
        }
        Ghost(seq![offer] + rest)
    }

    // -----------------------------------------------------------------------
    // Retrying
    // -----------------------------------------------------------------------

    /// The delay of the next retry of an endpoint, in milliseconds.
    pub fn calculate_next_retry_delay(&self, endpoint_id: &str) -> (r: u64)
        ensures
            r == self@.next_delay(endpoint_id@),
    {
        let initial: u64 = self.config.initial_delay();
        let max: u64 = self.config.max_delay();
        match self.retry_delays.get(endpoint_id) {
            None => initial,
            Some(last) => {
                let last: u64 = *last;
                let step: u64 = if self.config.use_exp_backoff_in_bwu_retry {
                    last
                } else {
                    initial
                };
                if last > max || step > max - last {
                    max
                } else {
                    last + step
                }
            },
        }
    }

    fn retry_upgrades_after_delay(&mut self, endpoint_id: &str)
        ensures
            final(self)@ == old(self)@.schedule(endpoint_id@),
    {
        let delay: u64 = self.calculate_next_retry_delay(endpoint_id);
        let _ = self.retry_delays.insert(endpoint_id, delay);
        let _ = self.retry_alarms.insert(endpoint_id, delay);
    }

    /// The delay of the retry that is waiting for an endpoint, in milliseconds. Whoever
    /// runs the manager waits that long and calls [`BwuManager::fire_retry_alarm`].
    pub fn pending_retry_delay(&self, endpoint_id: &str) -> (r: Option<u64>)
        ensures
            match r {
                Some(delay) => self@.alarms.contains_key(endpoint_id@) && delay
                    == self@.alarms[endpoint_id@],
                None => !self@.alarms.contains_key(endpoint_id@),
            },
    {
        match self.retry_alarms.get(endpoint_id) {
            Some(delay) => Some(*delay),
            None => None,
        }
    }

    /// The delays of all retries that are waiting, each endpoint once.
    pub fn pending_retry_delays(&self) -> (r: Vec<(String, u64)>)
        ensures
            lists_alarms(r@, self@.alarms),
    {
        let n: usize = self.retry_alarms.len();
        let ghost keys = self.retry_alarms.keys();
        let mut out: Vec<(String, u64)> = Vec::new();
        let mut i: usize = 0;
        while i < n
            invariant
                i <= n,
                n == keys.len(),
                keys == self.retry_alarms.keys(),
                out@.len() == i,
                forall|j: int|
                    0 <= j < i ==> (#[trigger] out@[j]).0@ == keys[j]
                        && self.retry_alarms@.contains_key(keys[j]) && out@[j].1
                        == self.retry_alarms@[keys[j]],
            decreases n - i,
        {
            let key = self.retry_alarms.key_at(i).to_owned();
            let delay: u64 = *self.retry_alarms.value_at(i);
            out.push((key, delay));
            i = i + 1;
        }
        assert forall|k: Seq<char>| #[trigger] self@.alarms.contains_key(k) implies exists|j: int|
            0 <= j < out@.len() && (#[trigger] out@[j]).0@ == k by {
            assert(keys.contains(k));
            let j = choose|j: int| 0 <= j < keys.len() && keys[j] == k;
            assert(out@[j].0@ == k);
        }
        assert forall|a: int, b: int| 0 <= a < b < out@.len() implies (#[trigger] out@[a]).0@ != (
        #[trigger] out@[b]).0@ by {
            assert(keys[a] != keys[b]);
        }
        out
    }

    /// The retry that is waiting for an endpoint is due. Without one nothing happens.
    pub fn fire_retry_alarm(&mut self, client: &mut ClientProxy, endpoint_id: &str)
        ensures
            final(client)@ == old(client)@,
            exists|offers: Seq<Offer>|
                final(self)@ == #[trigger] old(self)@.alarm_fired(
                    old(client)@,
                    endpoint_id@,
                    offers,
                ),
    {
        let ghost mut offers: Seq<Offer> = Seq::empty();
        if self.cancel_alarm(endpoint_id) {
            if client.is_connected_to_endpoint(endpoint_id) {
                let mediums = client.upgrade_mediums(endpoint_id);
                let Ghost(made) = self.try_next_best_upgrade_mediums(
                    client,
                    endpoint_id,
                    mediums.as_slice(),
                );
                proof {
                    offers = made;
                }
            }
        } else {
            assert(self@.alarms =~= old(self)@.alarms);
        }
        assert(self@ == old(self)@.alarm_fired(client@, endpoint_id@, offers));
    }

    /// Forgets that an upgrade is in progress, so that it can be offered again, and
    /// reverts nothing.
    pub fn reset_upgrade_for_endpoint(&mut self, endpoint_id: &str)
        ensures
            final(self)@ == (BwuView {
                in_progress: old(self)@.in_progress.remove(endpoint_id@),
                ..old(self)@
            }),
    {
        self.clear_in_progress(endpoint_id);
    }

    // -----------------------------------------------------------------------
    // The handshake
    // -----------------------------------------------------------------------

    /// The peer has finished with the prior channel.
    fn process_last_write_to_prior_channel_event(&mut self, endpoint_id: &str) -> (r: Ghost<
        Exception,
    >)
        ensures
            final(self)@ == old(self)@.last_write_seen(endpoint_id@, r@),
    {
        match self.take_previous(endpoint_id) {
            Some(prev) => {
                let mut prev = prev;
                let frame = for_bwu_safe_to_close();
                let written = prev.write(frame.as_slice());
                if written.ok() {
                    self.put_previous(endpoint_id, prev);
                    assert(self@.previous =~= old(self)@.previous.insert(
                        endpoint_id@,
                        prev.channel(),
                    ));
                } else {
                    let ghost told = prev.channel();
                    prev.close_with_reason(DisconnectionReason::IoError);
                    self.retire(prev);
                    assert(self@.previous =~= old(self)@.previous.insert(endpoint_id@, told).remove(
                        endpoint_id@,
                    ));
                }
                Ghost(written)
            },
            None => {
                assert(self@.previous =~= old(self)@.previous);
                self.set_early(endpoint_id);
                Ghost(Exception::Success)
            },
        }
    }

    /// Moves an endpoint to a new channel.
    fn run_upgrade_protocol(
        &mut self,
        client: &ClientProxy,
        endpoint_id: &str,
        new_channel: C,
        enable_encryption: bool,
        Ghost(o): Ghost<Outcomes>,
    ) -> (r: Ghost<Outcomes>)
        ensures
            final(self)@ == old(self)@.moved(client@, endpoint_id@, new_channel.channel(), r@),
            r@ == (Outcomes {
                last_write: r@.last_write,
                safe_to_close: r@.safe_to_close,
                ..o
            }),
    {
        let mut new_channel = new_channel;
        new_channel.set_local_endpoint_id(client.local_endpoint_id());
        new_channel.pause();
        let ghost paused = new_channel.channel();
        if !self.has_channel(endpoint_id) {
            self.retire(new_channel);
            return Ghost(o);
        }
        let prior = self.replace_channel(client, endpoint_id, new_channel, enable_encryption);
        let mut prior = prior;
        let frame = for_bwu_last_write();
        let written = prior.write(frame.as_slice());
        let ghost outcomes = Outcomes { last_write: written, ..o };
        if !written.ok() {
            self.retire(prior);
            return Ghost(outcomes);
        }
        if let Some(displaced) = self.take_previous(endpoint_id) {
            self.retire(displaced);
        }
        self.put_previous(endpoint_id, prior);
        assert(self@.previous =~= old(self)@.previous.insert(endpoint_id@, prior.channel()));
        if self.clear_early(endpoint_id) {
            let Ghost(safe) = self.process_last_write_to_prior_channel_event(endpoint_id);
            Ghost(Outcomes { safe_to_close: safe, ..outcomes })
        } else {
            assert(self@.early =~= old(self)@.early);
            Ghost(outcomes)
        }
    }

    fn has_channel(&self, endpoint_id: &str) -> (r: bool)
        ensures
            r == self@.channels.contains_key(endpoint_id@),
    {
        self.ecm.get_channel_for_endpoint(endpoint_id).is_some()
    }

    /// Swaps the channel of an endpoint that has one.
    fn replace_channel(
        &mut self,
        client: &ClientProxy,
        endpoint_id: &str,
        channel: C,
        enable_encryption: bool,
    ) -> (r: C)
        requires
            old(self)@.channels.contains_key(endpoint_id@),
        ensures
            final(self)@ == (BwuView {
                channels: old(self)@.channels.insert(endpoint_id@, channel.channel()),
                handovers: old(self)@.handovers.push(
                    Handover::Swapped {
                        endpoint_id: endpoint_id@,
                        prior: old(self)@.channels[endpoint_id@],
                        next: channel.channel(),
                    },
                ),
                ..old(self)@
            }),
            r.channel() == old(self)@.channels[endpoint_id@],
    {
        let prior = self.ecm.replace_channel_for_endpoint(
            client,
            endpoint_id,
            channel,
            enable_encryption,
        );
        assert(self@.channels =~= old(self)@.channels.insert(endpoint_id@, channel.channel()));
        prior.unwrap()
    }

    /// The prior channel can be closed, and the upgrade is completed.
    fn process_safe_to_close_prior_channel_event(
        &mut self,
        client: &mut ClientProxy,
        endpoint_id: &str,
        Ghost(o): Ghost<Outcomes>,
    ) -> (r: Ghost<Outcomes>)
        ensures
            (final(self)@, final(client)@) == old(self)@.closed_prior(
                old(client)@,
                endpoint_id@,
                r@,
            ),
    {
        match self.take_previous(endpoint_id) {
            Some(prev) => {
                let mut prev = prev;
                prev.disable_encryption();
                let frame = for_disconnection(false, false);
                let written = prev.write(frame.as_slice());
                let drained = prev.read();
                prev.close_with_reason(DisconnectionReason::Upgraded);
                let ghost outcomes = Outcomes {
                    disconnection: written,
                    drain: frames::result_view(drained),
                    ..o
                };
                assert(prev.channel() == old(self)@.ended_prior(endpoint_id@, outcomes));
                if let Some((medium, _, _)) = self.channel_info(endpoint_id) {
                    self.ecm.resume_channel_for_endpoint(endpoint_id, &prev);
                    client.on_bandwidth_changed(endpoint_id, medium);
                    self.clear_in_progress(endpoint_id);
                }
                self.retire(prev);
                Ghost(outcomes)
            },
            None => {
                assert(self@.previous =~= old(self)@.previous);
                Ghost(o)
            },
        }
    }

    /// A peer has opened a channel over the medium of an upgrade.
    pub fn on_incoming_connection(
        &mut self,
        client: &mut ClientProxy,
        connection: IncomingSocketConnection<C>,
    )
        ensures
            final(client)@ == old(client)@,
            exists|o: Outcomes|
                final(self)@ == #[trigger] old(self)@.connected(
                    old(client)@,
                    connection.channel.channel(),
                    o,
                ),
    {
        let mut channel = connection.channel;
        let (introduction, Ghost(introduced)) = read_client_introduction_frame(&mut channel);
        let ghost o = Outcomes { introduced, ..arbitrary() };
        let introduction = match introduction {
            Some(i) => i,
            None => {
                channel.close();
                self.retire(channel);
                assert(self@ == old(self)@.connected(client@, connection.channel.channel(), o));
                return ;
            },
        };
        let confirmation = write_client_introduction_ack_frame(&mut channel);
        let ghost o = Outcomes { confirmation, ..o };
        if !confirmation.ok() {
            channel.close();
            self.retire(channel);
            assert(self@ == old(self)@.connected(client@, connection.channel.channel(), o));
            return ;
        }
        let endpoint_id = match introduction.endpoint_id {
            Some(id) => id,
            None => String::new(),
        };
        assert(introduction@.endpoint_id is None ==> endpoint_id@ =~= Seq::empty());
        if !self.is_upgrade_ongoing(endpoint_id.as_str()) {
            self.retire(channel);
            assert(self@ == old(self)@.connected(client@, connection.channel.channel(), o));
            return ;
        }
        let enable_encryption = introduction.supports_disabling_encryption != Some(true);
        let Ghost(o) = self.run_upgrade_protocol(
            client,
            endpoint_id.as_str(),
            channel,
            enable_encryption,
            Ghost(o),
        );
        assert(self@ == old(self)@.connected(client@, connection.channel.channel(), o));
    }

    /// Hands in a channel as if a peer had opened it.
    pub fn invoke_on_incoming_connection_for_testing(
        &mut self,
        client: &mut ClientProxy,
        connection: IncomingSocketConnection<C>,
    )
        ensures
            final(client)@ == old(client)@,
            exists|o: Outcomes|
                final(self)@ == #[trigger] old(self)@.connected(
                    old(client)@,
                    connection.channel.channel(),
                    o,
                ),
    {
        self.on_incoming_connection(client, connection);
    }

    // -----------------------------------------------------------------------
    // Being offered
    // -----------------------------------------------------------------------

    /// Refuses an offer.
    fn run_upgrade_failed_protocol(
        &mut self,
        endpoint_id: &str,
        upgrade_path_info: &bwu::UpgradePathInfo,
    ) -> (r: Ghost<Exception>)
        ensures
            final(self)@ == old(self)@.refused(endpoint_id@, upgrade_path_info@, r@),
    {
        let service_id = match self.channel_info(endpoint_id) {
            Some((_, service_id, _)) => service_id,
            None => return Ghost(Exception::Success),
        };
        let frame = for_bwu_failure(upgrade_path_info.clone());
        let written = self.write_to(endpoint_id, frame.as_slice());
        if !written.ok() {
            self.close_channel(endpoint_id, DisconnectionReason::IoError);
            return Ghost(written);
        }
        if self.get_bwu_medium_for_endpoint(endpoint_id) != Medium::UnknownMedium {
            self.revert_bwu_medium_for_endpoint(service_id.as_str(), endpoint_id);
        }
        self.clear_in_progress(endpoint_id);
        Ghost(written)
    }

    /// Joins the medium of an offer, and gives the new channel.
    fn process_bwu_path_available_event_internal(
        &mut self,
        client: &ClientProxy,
        endpoint_id: &str,
        upgrade_path_info: &bwu::UpgradePathInfo,
    ) -> (r: (Option<C>, Ghost<Outcomes>))
        ensures
            (final(self)@, handler::channel_of(r.0)) == old(self)@.joined(
                client@,
                endpoint_id@,
                upgrade_path_info@,
                r.1@,
            ),
    {
        let ghost o: Outcomes = arbitrary();
        let medium = upi_medium(upgrade_path_info);
        if medium != self.get_bwu_medium_for_endpoint(endpoint_id) {
            return (None, Ghost(o));
        }
        if !self.has_handler_for_medium(medium) {
            return (None, Ghost(o));
        }
        let (service_id, local) = match self.channel_info(endpoint_id) {
            Some((_, service_id, local)) => (service_id, local),
            None => return (None, Ghost(o)),
        };
        let last_local = if text::is_empty(local.as_str()) {
            client.last_local_endpoint_id().to_owned()
        } else {
            local
        };
        let created = self.create_channel(
            medium,
            client,
            service_id.as_str(),
            endpoint_id,
            upgrade_path_info,
        );
        let ghost o = Outcomes { created: handler::channel_of(created), ..o };
        let mut channel = match created {
            Some(channel) => channel,
            None => return (None, Ghost(o)),
        };
        let intro = for_bwu_introduction(
            client.local_endpoint_id(),
            last_local.as_str(),
            upgrade_path_info.supports_disabling_encryption == Some(true),
        );
        let introduction = channel.write(intro.as_slice());
        let ghost o = Outcomes { introduction, ..o };
        if !introduction.ok() {
            channel.close();
            self.retire(channel);
            return (None, Ghost(o));
        }
        if upgrade_path_info.supports_client_introduction_ack == Some(true) {
            let (confirmed, Ghost(read)) = read_client_introduction_ack_frame(&mut channel);
            let ghost o = Outcomes { confirmed: read, ..o };
            if !confirmed {
                channel.close();
                self.retire(channel);
                return (None, Ghost(o));
            }
            return (Some(channel), Ghost(o));
        }
        (Some(channel), Ghost(o))
    }

    /// The peer offers a medium.
    fn process_bwu_path_available_event(
        &mut self,
        client: &ClientProxy,
        endpoint_id: &str,
        upgrade_path_info: &bwu::UpgradePathInfo,
    ) -> (r: Ghost<Outcomes>)
        ensures
            final(self)@ == old(self)@.offered(client@, endpoint_id@, upgrade_path_info@, r@),
    {
        let ghost o: Outcomes = arbitrary();
        let upgrade_medium = upi_medium(upgrade_path_info);
        if self.tears_down_wifi_lan(upgrade_medium) {
            let Ghost(refusal) = self.run_upgrade_failed_protocol(endpoint_id, upgrade_path_info);
            return Ghost(Outcomes { refusal, ..o });
        }
        if client.is_incoming_connection(endpoint_id) {
            return Ghost(o);
        }
        if self.is_upgrade_ongoing(endpoint_id) {
            self.drop_previous(endpoint_id, DisconnectionReason::Unfinished);
            if self.has_channel(endpoint_id) {
                self.resume_channel(endpoint_id);
                self.close_channel(endpoint_id, DisconnectionReason::Unfinished);
            }
            return Ghost(o);
        }
        if self.get_bwu_medium_for_endpoint(endpoint_id) == Medium::UnknownMedium {
            self.set_bwu_medium_for_endpoint(endpoint_id, upgrade_medium);
        }
        if upgrade_medium != self.get_bwu_medium_for_endpoint(endpoint_id) {
            let Ghost(refusal) = self.run_upgrade_failed_protocol(endpoint_id, upgrade_path_info);
            return Ghost(Outcomes { refusal, ..o });
        }
        let (joined, Ghost(o)) = self.process_bwu_path_available_event_internal(
            client,
            endpoint_id,
            upgrade_path_info,
        );
        match joined {
            Some(channel) => {
                self.set_in_progress(endpoint_id);
                let enable_encryption = upgrade_path_info.supports_disabling_encryption != Some(
                    true,
                );
                self.run_upgrade_protocol(
                    client,
                    endpoint_id,
                    channel,
                    enable_encryption,
                    Ghost(o),
                )
            },
            None => {
                let Ghost(refusal) = self.run_upgrade_failed_protocol(
                    endpoint_id,
                    upgrade_path_info,
                );
                Ghost(Outcomes { refusal, ..o })
            },
        }
    }

    // -----------------------------------------------------------------------
    // Frames and disconnections
    // -----------------------------------------------------------------------

    /// A frame has come in from an endpoint.
    pub fn on_incoming_frame(
        &mut self,
        frame: &pb::OfflineFrame,
        endpoint_id: &str,
        client: &mut ClientProxy,
        _medium: Medium,
    )
        ensures
            exists|o: Outcomes|
                (final(self)@, final(client)@) == #[trigger] old(self)@.received(
                    old(client)@,
                    frame@,
                    endpoint_id@,
                    o,
                ),
    {
        let ghost o: Outcomes = arbitrary();
        if get_frame_type(frame) == pb::v1_frame::FrameType::BandwidthUpgradeNegotiation {
            if let Some(v1) = &frame.v1 {
                if let Some(step) = &v1.bandwidth_upgrade_negotiation {
                    let Ghost(o) = self.on_bwu_negotiation_frame(client, step, endpoint_id);
                    assert((self@, client@) == old(self)@.received(
                        old(client)@,
                        frame@,
                        endpoint_id@,
                        o,
                    ));
                    return ;
                }
            }
        }
        assert((self@, client@) == old(self)@.received(old(client)@, frame@, endpoint_id@, o));
    }

    fn on_bwu_negotiation_frame(
        &mut self,
        client: &mut ClientProxy,
        frame: &pb::BandwidthUpgradeNegotiationFrame,
        endpoint_id: &str,
    ) -> (r: Ghost<Outcomes>)
        ensures
            (final(self)@, final(client)@) == old(self)@.negotiated(
                old(client)@,
                frame@,
                endpoint_id@,
                r@,
            ),
    {
        let ghost o: Outcomes = arbitrary();
        let event_type = match frame.event_type {
            Some(v) => match bwu::EventType::from_i32(v) {
                Some(event) => event,
                None => bwu::EventType::UnknownEventType,
            },
            None => bwu::EventType::UnknownEventType,
        };
        if !client.is_connected_to_endpoint(endpoint_id) {
            if event_type == bwu::EventType::UpgradePathAvailable {
                if let Some(info) = &frame.upgrade_path_info {
                    let Ghost(refusal) = self.run_upgrade_failed_protocol(endpoint_id, info);
                    return Ghost(Outcomes { refusal, ..o });
                }
            }
            return Ghost(o);
        }
        match event_type {
            bwu::EventType::UpgradePathAvailable => match &frame.upgrade_path_info {
                Some(info) => self.process_bwu_path_available_event(client, endpoint_id, info),
                None => Ghost(o),
            },
            bwu::EventType::UpgradeFailure => match &frame.upgrade_path_info {
                Some(info) => {
                    let Ghost(offers) = self.process_upgrade_failure_event(
                        client,
                        endpoint_id,
                        info,
                    );
                    Ghost(Outcomes { offers, ..o })
                },
                None => Ghost(o),
            },
            bwu::EventType::LastWriteToPriorChannel => {
                if !self.is_upgrade_ongoing(endpoint_id) {
                    return Ghost(o);
                }
                let Ghost(safe) = self.process_last_write_to_prior_channel_event(endpoint_id);
                Ghost(Outcomes { safe_to_close: safe, ..o })
            },
            bwu::EventType::SafeToClosePriorChannel => {
                if !self.is_upgrade_ongoing(endpoint_id) {
                    return Ghost(o);
                }
                self.process_safe_to_close_prior_channel_event(client, endpoint_id, Ghost(o))
            },
            _ => Ghost(o),
        }
    }

    /// An endpoint has disconnected.
    pub fn on_endpoint_disconnect(
        &mut self,
        client: &mut ClientProxy,
        service_id: &str,
        endpoint_id: &str,
        _reason: DisconnectionReason,
    )
        ensures
            final(client)@ == old(client)@,
            final(self)@ == old(self)@.disconnected(old(client)@, service_id@, endpoint_id@),
    {
        let medium = self.get_bwu_medium_for_endpoint(endpoint_id);
        if self.has_handler_for_medium(medium) {
            self.tell_disconnect(medium, client, endpoint_id);
        }
        self.drop_previous(endpoint_id, DisconnectionReason::Shutdown);
        self.clear_in_progress(endpoint_id);
        let _ = self.clear_early(endpoint_id);
        let _ = self.retry_delays.remove(endpoint_id);
        let _ = self.cancel_alarm(endpoint_id);
        let count: usize = self.ecm.get_connected_endpoints_count();
        assert(self@.channels.dom() =~= self.ecm@.dom());
        if self.config.support_multiple_bwu_mediums || count <= 1 {
            self.revert_bwu_medium_for_endpoint(service_id, endpoint_id);
        }
    }

    /// Reverts everything and forgets everything, but for the channels of the endpoints. The
    /// prior channels are let go and not closed.
    pub fn shutdown(&mut self)
        ensures
            exists|order: Seq<Seq<char>>|
                model::lists_channels(order, old(self)@.previous) && final(self)@
                    == #[trigger] old(self)@.shut_down(order),
    {
        let ghost order = self.previous_endpoint_channels.keys();
        self.handlers.revert_initiator_states();
        self.in_progress_upgrades.clear();
        let mut left = self.previous_endpoint_channels.take_all();
        let ghost were = left@;
        self.retired.append(&mut left);
        self.successfully_upgraded_endpoints.clear();
        self.retry_delays.clear();
        self.retry_alarms.clear();
        proof {
            let target = old(self)@.shut_down(order);
            assert forall|k: Seq<char>| #[trigger] order.contains(k) <==> old(
                self,
            )@.previous.contains_key(k) by {
                assert(old(self).previous_endpoint_channels@.contains_key(k) <==> order.contains(
                    k,
                ));
            }
            assert(self@.handlers =~= target.handlers);
            assert forall|i: int| 0 <= i < order.len() implies were[i].channel() == old(
                self,
            )@.previous[#[trigger] order[i]] by {
                assert(order.contains(order[i]));
            }
            assert(self@.retired =~= target.retired);
            assert(self@ =~= target);
        }
    }

    // -----------------------------------------------------------------------
    // Access
    // -----------------------------------------------------------------------

    /// The channels of the connected endpoints.
    pub closed spec fn spec_channel_manager(&self) -> &EndpointChannelManager<C> {
        &self.ecm
    }

    pub fn channel_manager(&self) -> (r: &EndpointChannelManager<C>)
        ensures
            *r == *self.spec_channel_manager(),
            self@.channels == channel_manager::channels_view(r@),
    {
        &self.ecm
    }

    /// Connects an endpoint, in place of the channel that it had, which is not closed.
    pub fn register_channel_for_endpoint(
        &mut self,
        client: &ClientProxy,
        endpoint_id: &str,
        channel: C,
    )
        ensures
            final(self)@ == old(self)@.registered(endpoint_id@, channel.channel()),
    {
        self.ecm.register_channel_for_endpoint(client, endpoint_id, channel);
        assert(self@.channels =~= old(self)@.channels.insert(endpoint_id@, channel.channel()));
        assert(self@.dropped =~= old(self)@.registered(endpoint_id@, channel.channel()).dropped);
    }

    /// Forgets the channel of an endpoint; it is not closed here. Tells whether there
    /// was one.
    pub fn unregister_channel_for_endpoint(
        &mut self,
        endpoint_id: &str,
        reason: DisconnectionReason,
        result: SafeDisconnectionResult,
    ) -> (r: bool)
        ensures
            r == old(self)@.channels.contains_key(endpoint_id@),
            final(self)@ == old(self)@.unregistered(endpoint_id@),
    {
        let r = self.ecm.unregister_channel_for_endpoint(endpoint_id, reason, result);
        assert(self@.channels =~= old(self)@.channels.remove(endpoint_id@));
        assert(self@.dropped =~= old(self)@.unregistered(endpoint_id@).dropped);
        r
    }

    /// The prior channel of an endpoint that was moved to a new one, until it is closed.
    pub fn previous_channel(&self, endpoint_id: &str) -> (r: Option<&C>)
        ensures
            match r {
                Some(c) => self@.previous.contains_key(endpoint_id@) && c.channel()
                    == self@.previous[endpoint_id@],
                None => !self@.previous.contains_key(endpoint_id@),
            },
    {
        self.previous_endpoint_channels.get(endpoint_id)
    }

    /// The channels that were closed or turned away, the earliest first.
    pub fn retired(&self) -> (r: &[C])
        ensures
            channel_list(r@) == self@.retired,
    {
        self.retired.as_slice()
    }

    /// Takes the channels that were closed or turned away.
    pub fn take_retired(&mut self) -> (r: Vec<C>)
        ensures
            channel_list(r@) == old(self)@.retired,
            final(self)@ == (BwuView { retired: Seq::empty(), ..old(self)@ }),
    {
        let mut r: Vec<C> = Vec::new();
        std::mem::swap(&mut r, &mut self.retired);
        assert(self@.retired =~= Seq::empty());
        r
    }

    /// Takes the channels that were forgotten, or displaced by others.
    pub fn take_dropped(&mut self) -> (r: Vec<C>)
        ensures
            channel_list(r@) == old(self)@.dropped,
            final(self)@ == (BwuView { dropped: Seq::empty(), ..old(self)@ }),
    {
        let r = self.ecm.take_dropped();
        assert(self@.dropped =~= Seq::empty());
        r
    }

    /// The handler of a medium.
    pub fn handler(&self, medium: Medium) -> (r: Option<&B>)
        ensures
            match r {
                Some(h) => self@.handlers.contains_key(medium) && handler::view_of::<C, B>(*h)
                    == self@.handlers[medium],
                None => !self@.handlers.contains_key(medium),
            },
    {
        self.handlers.get(medium)
    }
}

/// Reads an introduction.
fn read_client_introduction_frame<C: EndpointChannel>(channel: &mut C) -> (r: (
    Option<bwu::ClientIntroduction>,
    Ghost<Result<Seq<u8>, Exception>>,
))
    ensures
        r.1@ == old(channel).channel().reads(r.1@),
        final(channel).channel() == old(channel).channel().after(ChannelEvent::Read(r.1@)),
        wire::opt_view(r.0) == model::introduction_read(r.1@),
{
    let data = channel.read();
    let ghost read = frames::result_view(data);
    let data = match data {
        Ok(data) => data,
        Err(_) => return (None, Ghost(read)),
    };
    let frame = match from_bytes(data.as_slice()) {
        Ok(frame) => frame,
        Err(_) => return (None, Ghost(read)),
    };
    match frame.v1 {
        Some(v1) => match v1.bandwidth_upgrade_negotiation {
            Some(step) => {
                if step.event_type == Some(bwu::EventType::ClientIntroduction.value()) {
                    (step.client_introduction, Ghost(read))
                } else {
                    (None, Ghost(read))
                }
            },
            None => (None, Ghost(read)),
        },
        None => (None, Ghost(read)),
    }
}

/// Reads the confirmation of an introduction. Tells whether it was one.
fn read_client_introduction_ack_frame<C: EndpointChannel>(channel: &mut C) -> (r: (
    bool,
    Ghost<Result<Seq<u8>, Exception>>,
))
    ensures
        r.1@ == old(channel).channel().reads(r.1@),
        final(channel).channel() == old(channel).channel().after(ChannelEvent::Read(r.1@)),
        r.0 == model::confirmation_read(r.1@),
{
    let data = channel.read();
    let ghost read = frames::result_view(data);
    let data = match data {
        Ok(data) => data,
        Err(_) => return (false, Ghost(read)),
    };
    let frame = match from_bytes(data.as_slice()) {
        Ok(frame) => frame,
        Err(_) => return (false, Ghost(read)),
    };
    match frame.v1 {
        Some(v1) => match v1.bandwidth_upgrade_negotiation {
            Some(step) => (
                step.event_type == Some(bwu::EventType::ClientIntroductionAck.value()),
                Ghost(read),
            ),
            None => (false, Ghost(read)),
        },
        None => (false, Ghost(read)),
    }
}

/// Confirms an introduction.
fn write_client_introduction_ack_frame<C: EndpointChannel>(channel: &mut C) -> (r: Exception)
    ensures
        r == old(channel).channel().writes(r),
        final(channel).channel() == old(channel).channel().after(
            ChannelEvent::Write(frames::event_bytes(bwu::EventType::ClientIntroductionAck), r),
        ),
{
    let frame = for_bwu_introduction_ack();
    channel.write(frame.as_slice())
}

/// A list of the waiting retries, each endpoint once.
pub open spec fn lists_alarms(list: Seq<(String, u64)>, alarms: Map<Seq<char>, u64>) -> bool {
    &&& forall|i: int|
        0 <= i < list.len() ==> alarms.contains_key((#[trigger] list[i]).0@) && list[i].1
            == alarms[list[i].0@]
    &&& forall|k: Seq<char>| #[trigger]
        alarms.contains_key(k) ==> exists|i: int| 0 <= i < list.len() && (#[trigger] list[i]).0@ == k
    &&& forall|i: int, j: int|
        0 <= i < j < list.len() ==> (#[trigger] list[i]).0@ != (#[trigger] list[j]).0@
}

/// In a list of the waiting retries, each one that waits is found, with its delay, and there
/// is nothing else in it.
pub proof fn lemma_alarms_listed(
    list: Seq<(String, u64)>,
    alarms: Map<Seq<char>, u64>,
    endpoint_id: Seq<char>,
)
    requires
        lists_alarms(list, alarms),
    ensures
        alarms.contains_key(endpoint_id) ==> exists|i: int|
            0 <= i < list.len() && (#[trigger] list[i]).0@ == endpoint_id && list[i].1
                == alarms[endpoint_id],
        !alarms.contains_key(endpoint_id) ==> forall|i: int|
            0 <= i < list.len() ==> (#[trigger] list[i]).0@ != endpoint_id,
{
}

// ---------------------------------------------------------------------------
// Helpers
// ---------------------------------------------------------------------------

/// The mediums that come after the first occurrence of `tried`.
fn untried_mediums(mediums: &[Medium], tried: Medium) -> (r: Vec<Medium>)
    ensures
        r@ == model::untried(mediums@, tried),
{
    let mut i: usize = 0;
    assert(mediums@.skip(0) =~= mediums@);
    while i < mediums.len()
        invariant
            i <= mediums@.len(),
            model::untried(mediums@, tried) == model::untried(mediums@.skip(i as int), tried),
        decreases mediums@.len() - i,
    {
        assert(mediums@.skip(i as int).drop_first() =~= mediums@.skip(i + 1));
        if mediums[i] == tried {
            let rest = vstd::slice::slice_subrange(mediums, i + 1, mediums.len());
            assert(rest@ =~= mediums@.skip(i + 1));
            return vstd::slice::slice_to_vec(rest);
        }
        i = i + 1;
    }
    let none: Vec<Medium> = Vec::new();
    assert(none@ =~= mediums@.skip(i as int));
    none
}

fn upi_medium(upgrade_path_info: &bwu::UpgradePathInfo) -> (r: Medium)
    ensures
        r == model::info_medium(upgrade_path_info@),
{
    let m = match upgrade_path_info.medium {
        Some(v) => match upi::Medium::from_i32(v) {
            Some(m) => m,
            None => upi::Medium::UnknownMedium,
        },
        None => upi::Medium::UnknownMedium,
    };
    upgrade_path_info_medium_to_medium(m)
}

fn upgrade_path_info_for_medium(medium: Medium) -> (r: bwu::UpgradePathInfo)
    ensures
        r@ == model::bare_path(medium),
{
    bwu::UpgradePathInfo {
        medium: Some(medium_to_upgrade_path_info_medium(medium).value()),
        ..Default::default()
    }
}

} // verus!

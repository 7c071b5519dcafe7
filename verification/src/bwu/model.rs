//! What the manager of upgrades holds, and what each step makes of it.
//!
//! The manager works with channels and handlers that it does not control: what a read,
//! a write or an offer gives is up to them. [`Outcomes`] holds what the calls of one
//! step gave. Given the outcomes, each step below is a function from what the manager
//! held before to what it holds after, including every use of a channel and every call
//! of a handler.

use vstd::prelude::*;

use crate::bwu::channel::{ChannelEvent, ChannelView, DisconnectionReason};
use crate::bwu::channel_manager;
use crate::bwu::channel_manager::Handover;
use crate::bwu::client::ClientView;
use crate::bwu::handler::{BwuCall, HandlerView};
use crate::bwu::manager::BwuConfig;
use crate::bwu::service_id;
use crate::frames;
use crate::frames::Exception;
use crate::mediums::Medium;
use crate::proto as pb;
use crate::proto::bandwidth_upgrade_negotiation_frame as bwu;
use crate::proto::bandwidth_upgrade_negotiation_frame::upgrade_path_info as upi;

verus! {

/// What an attempt to offer a medium met with: the frame that the handler gave, and how
/// the write of it ended.
pub struct Offer {
    pub frame: Seq<u8>,
    pub write: Exception,
}

/// What the calls of one step gave. A call that was not made leaves its part open, and
/// so does one whose result is known beforehand.
pub struct Outcomes {
    /// The offers, one for each medium that was tried.
    pub offers: Seq<Offer>,
    /// The write of a refusal.
    pub refusal: Exception,
    /// The channel that the handler opened.
    pub created: Option<ChannelView>,
    /// The write of an introduction.
    pub introduction: Exception,
    /// The read of an introduction.
    pub introduced: Result<Seq<u8>, Exception>,
    /// The write of the confirmation of an introduction.
    pub confirmation: Exception,
    /// The read of the confirmation of an introduction.
    pub confirmed: Result<Seq<u8>, Exception>,
    /// The last write to the prior channel.
    pub last_write: Exception,
    /// The write that tells that the prior channel can be closed.
    pub safe_to_close: Exception,
    /// The write that ends the prior channel.
    pub disconnection: Exception,
    /// The read that drains the prior channel.
    pub drain: Result<Seq<u8>, Exception>,
    /// The order in which the prior channels are let go.
    pub order: Seq<Seq<char>>,
}

/// What the manager of upgrades holds.
#[verifier::ext_equal]
pub struct BwuView {
    pub config: BwuConfig,
    /// The channel of each connected endpoint.
    pub channels: Map<Seq<char>, ChannelView>,
    /// The handler of each medium.
    pub handlers: Map<Medium, HandlerView>,
    /// The medium of all upgrades, where only one medium at a time is supported.
    pub medium: Medium,
    /// The medium of the upgrade of each endpoint, where several are supported.
    pub mediums: Map<Seq<char>, Medium>,
    /// The endpoints whose upgrade was started and not completed.
    pub in_progress: Set<Seq<char>>,
    /// The prior channel of each endpoint that was moved to a new one, until it can be
    /// closed.
    pub previous: Map<Seq<char>, ChannelView>,
    /// The endpoints whose peer has finished with the prior channel before this side
    /// has moved to a new one.
    pub early: Set<Seq<char>>,
    /// The delay of the last retry of each endpoint.
    pub retry_delays: Map<Seq<char>, u64>,
    /// The delay of the retry that is waiting, for each endpoint that has one.
    pub alarms: Map<Seq<char>, u64>,
    /// The channels that were closed or turned away, or that were left when everything was
    /// shut down.
    pub retired: Seq<ChannelView>,
    /// The channels that were forgotten, or displaced by others, as they were then.
    pub dropped: Seq<ChannelView>,
    /// The moments at which an endpoint went from one channel to another.
    pub handovers: Seq<Handover>,
}

// ---------------------------------------------------------------------------
// Mediums
// ---------------------------------------------------------------------------

/// The medium that an upgrade path names.
pub open spec fn info_medium(info: bwu::UpgradePathInfoView) -> Medium {
    match info.medium {
        Some(number) => match upi::Medium::from_i32(number) {
            Some(m) => frames::upgrade_path_info_medium_to_medium(m),
            None => Medium::UnknownMedium,
        },
        None => Medium::UnknownMedium,
    }
}

/// An upgrade path that names a medium and nothing else.
pub open spec fn bare_path(medium: Medium) -> bwu::UpgradePathInfoView {
    bwu::UpgradePathInfoView {
        medium: Some(frames::medium_to_upgrade_path_info_medium(medium).value()),
        ..bwu::UpgradePathInfoView::unset()
    }
}

/// The mediums that come after the first occurrence of `tried`; none if it does not
/// occur.
pub open spec fn untried(mediums: Seq<Medium>, tried: Medium) -> Seq<Medium>
    decreases mediums.len(),
{
    if mediums.len() == 0 {
        mediums
    } else if mediums[0] == tried {
        mediums.drop_first()
    } else {
        untried(mediums.drop_first(), tried)
    }
}

pub proof fn lemma_untried_shorter(mediums: Seq<Medium>, tried: Medium)
    requires
        mediums.len() > 0,
    ensures
        untried(mediums, tried).len() < mediums.len(),
    decreases mediums.len(),
{
    reveal_with_fuel(untried, 2);
    if mediums[0] != tried && mediums.len() > 1 {
        lemma_untried_shorter(mediums.drop_first(), tried);
    }
}

// ---------------------------------------------------------------------------
// Frames
// ---------------------------------------------------------------------------

/// The step of a bandwidth upgrade that a frame carries, if it carries one.
pub open spec fn carried(data: Result<Seq<u8>, Exception>) -> Option<
    pb::BandwidthUpgradeNegotiationFrameView,
> {
    match data {
        Ok(data) => match frames::parsed(data) {
            Ok(frame) => match frame.v1 {
                Some(v1) => v1.bandwidth_upgrade_negotiation,
                None => None,
            },
            Err(_) => None,
        },
        Err(_) => None,
    }
}

/// The introduction that was read, if it was one.
pub open spec fn introduction_read(data: Result<Seq<u8>, Exception>) -> Option<
    bwu::ClientIntroductionView,
> {
    match carried(data) {
        Some(step) => if step.event_type == Some(bwu::EventType::ClientIntroduction.value()) {
            step.client_introduction
        } else {
            None
        },
        None => None,
    }
}

/// Whether the confirmation of an introduction was read.
pub open spec fn confirmation_read(data: Result<Seq<u8>, Exception>) -> bool {
    carried(data) matches Some(step) && step.event_type == Some(
        bwu::EventType::ClientIntroductionAck.value(),
    )
}

/// The step that a frame type stands for.
pub open spec fn event_of(step: pb::BandwidthUpgradeNegotiationFrameView) -> bwu::EventType {
    match step.event_type {
        Some(number) => match bwu::EventType::from_i32(number) {
            Some(event) => event,
            None => bwu::EventType::UnknownEventType,
        },
        None => bwu::EventType::UnknownEventType,
    }
}

pub open spec fn is_set(flag: Option<bool>) -> bool {
    flag == Some(true)
}

impl BwuView {
    // -----------------------------------------------------------------------
    // Parts of a step
    // -----------------------------------------------------------------------

    /// The medium of the upgrade of an endpoint.
    pub open spec fn bwu_medium(self, endpoint_id: Seq<char>) -> Medium {
        if !self.config.support_multiple_bwu_mediums {
            self.medium
        } else if self.mediums.contains_key(endpoint_id) {
            self.mediums[endpoint_id]
        } else {
            Medium::UnknownMedium
        }
    }

    pub open spec fn with_bwu_medium(self, endpoint_id: Seq<char>, medium: Medium) -> BwuView {
        if self.config.support_multiple_bwu_mediums {
            BwuView { mediums: self.mediums.insert(endpoint_id, medium), ..self }
        } else {
            BwuView { medium, ..self }
        }
    }

    pub open spec fn has_handler(self, medium: Medium) -> bool {
        !(medium is UnknownMedium) && self.handlers.contains_key(medium)
    }

    /// To join the medium would tear down the local network, over which some endpoint is
    /// connected: a hotspot and a Wi-Fi Direct group do that.
    pub open spec fn tears_down_wifi_lan(self, medium: Medium) -> bool {
        channel_manager::on_wifi_lan(self.channels) && (medium is WifiHotspot || medium
            is WifiDirect)
    }

    /// The channel of an endpoint is used once more.
    pub open spec fn used(self, endpoint_id: Seq<char>, event: ChannelEvent) -> BwuView {
        BwuView {
            channels: self.channels.insert(endpoint_id, self.channels[endpoint_id].after(event)),
            ..self
        }
    }

    /// The handler of a medium is called once more.
    pub open spec fn called(self, medium: Medium, call: BwuCall) -> BwuView {
        BwuView {
            handlers: self.handlers.insert(medium, self.handlers[medium].after(call)),
            ..self
        }
    }

    /// The frame with which the handler of a medium offers it to an endpoint.
    pub open spec fn frame_offered(
        self,
        client: ClientView,
        endpoint_id: Seq<char>,
        medium: Medium,
        offer: Offer,
    ) -> Seq<u8> {
        self.handlers[medium].replies.offers(
            client,
            self.channels[endpoint_id].service_id,
            endpoint_id,
            offer.frame,
        )
    }

    /// The channel that the handler of a medium opens when an endpoint joins it.
    pub open spec fn channel_created(
        self,
        client: ClientView,
        endpoint_id: Seq<char>,
        info: bwu::UpgradePathInfoView,
        o: Outcomes,
    ) -> Option<ChannelView> {
        self.handlers[info_medium(info)].replies.creates(
            client,
            self.channels[endpoint_id].service_id,
            endpoint_id,
            info,
            o.created,
        )
    }

    /// The channel of an endpoint, if it has one, is dropped as it is.
    pub open spec fn drop_channel(self, endpoint_id: Seq<char>) -> BwuView {
        if self.channels.contains_key(endpoint_id) {
            BwuView { dropped: self.dropped.push(self.channels[endpoint_id]), ..self }
        } else {
            self
        }
    }

    /// An endpoint is connected, in place of the channel that it had.
    pub open spec fn registered(self, endpoint_id: Seq<char>, channel: ChannelView) -> BwuView {
        BwuView {
            channels: self.channels.insert(endpoint_id, channel),
            ..self.drop_channel(endpoint_id)
        }
    }

    /// The channel of an endpoint is forgotten.
    pub open spec fn unregistered(self, endpoint_id: Seq<char>) -> BwuView {
        BwuView {
            channels: self.channels.remove(endpoint_id),
            ..self.drop_channel(endpoint_id)
        }
    }

    /// A channel is let go.
    pub open spec fn retire(self, channel: ChannelView) -> BwuView {
        BwuView { retired: self.retired.push(channel), ..self }
    }

    /// The prior channel of an endpoint, if there is one, is closed.
    pub open spec fn drop_previous(
        self,
        endpoint_id: Seq<char>,
        reason: DisconnectionReason,
    ) -> BwuView {
        if self.previous.contains_key(endpoint_id) {
            BwuView { previous: self.previous.remove(endpoint_id), ..self }.retire(
                self.previous[endpoint_id].after(ChannelEvent::CloseWithReason(reason)),
            )
        } else {
            self
        }
    }

    /// More than one endpoint is connected, where only one medium at a time is
    /// supported: the medium is not given up on account of one of them.
    pub open spec fn medium_is_shared(self) -> bool {
        !self.config.support_multiple_bwu_mediums && self.channels.dom().len() > 1
    }

    // -----------------------------------------------------------------------
    // Reverting
    // -----------------------------------------------------------------------

    /// The upgrade of an endpoint no longer has a medium. Where only one medium at a
    /// time is supported, its handler reverts everything. Otherwise the handler reverts
    /// what was done for this endpoint: what was set up, if the service id is a wrapped
    /// one, and what was joined, if it is not; of that, only a hotspot and a Wi-Fi Direct
    /// group are left again.
    pub open spec fn revert(self, service_id: Seq<char>, endpoint_id: Seq<char>) -> BwuView {
        let medium = self.bwu_medium(endpoint_id);
        if !self.config.support_multiple_bwu_mediums {
            let next = BwuView { medium: Medium::UnknownMedium, ..self };
            if self.has_handler(medium) {
                next.called(medium, BwuCall::RevertAll)
            } else {
                next
            }
        } else {
            let next = BwuView { mediums: self.mediums.remove(endpoint_id), ..self };
            if !self.has_handler(medium) {
                next
            } else if service_id::is_wrapped(service_id) {
                next.called(
                    medium,
                    BwuCall::RevertEndpoint { upgrade_service_id: service_id, endpoint_id },
                )
            } else if medium is WifiHotspot || medium is WifiDirect {
                next.called(medium, BwuCall::RevertResponder { service_id })
            } else {
                next
            }
        }
    }

    // -----------------------------------------------------------------------
    // Offering
    // -----------------------------------------------------------------------

    /// Offers a medium to the peer. Tells whether the medium was tried and failed: the
    /// handler could not set it up, or the offer could not be written.
    pub open spec fn attempt(
        self,
        client: ClientView,
        endpoint_id: Seq<char>,
        medium: Medium,
        offer: Offer,
    ) -> (BwuView, bool) {
        if self.tears_down_wifi_lan(medium) {
            (self, false)
        } else {
            let chosen = self.with_bwu_medium(endpoint_id, medium);
            if !self.has_handler(medium) || self.in_progress.contains(endpoint_id) {
                (chosen, false)
            } else {
                let awake = BwuView { alarms: chosen.alarms.remove(endpoint_id), ..chosen };
                if !self.channels.contains_key(endpoint_id) || self.channels[endpoint_id].medium
                    == medium {
                    (awake, false)
                } else {
                    let frame = self.frame_offered(client, endpoint_id, medium, offer);
                    let asked = awake.called(
                        medium,
                        BwuCall::Initialize {
                            client,
                            service_id: self.channels[endpoint_id].service_id,
                            endpoint_id,
                            frame,
                        },
                    );
                    if frame.len() == 0 {
                        (asked, true)
                    } else {
                        let write = self.channels[endpoint_id].writes(offer.write);
                        let written = asked.used(
                            endpoint_id,
                            ChannelEvent::Write(frame, write),
                        );
                        if !write.ok() {
                            (written, true)
                        } else {
                            (
                                BwuView {
                                    in_progress: written.in_progress.insert(endpoint_id),
                                    ..written
                                },
                                false,
                            )
                        }
                    }
                }
            }
        }
    }

    /// The upgrade of an endpoint has failed: it is no longer in progress, and its medium
    /// is given up. Tells whether another medium may be tried.
    pub open spec fn fall_back(self, endpoint_id: Seq<char>) -> (BwuView, bool) {
        let stopped = BwuView { in_progress: self.in_progress.remove(endpoint_id), ..self };
        if self.medium_is_shared() {
            (stopped, false)
        } else if self.bwu_medium(endpoint_id) is UnknownMedium {
            (stopped, true)
        } else {
            let service_id = if self.channels.contains_key(endpoint_id) {
                self.channels[endpoint_id].service_id
            } else {
                service_id::UNKNOWN_SERVICE_ID@
            };
            (stopped.revert(service_id::wrapped(service_id), endpoint_id), true)
        }
    }

    /// The first medium that has a handler; unknown if none has.
    pub open spec fn first_available(self, mediums: Seq<Medium>) -> Medium
        decreases mediums.len(),
    {
        if mediums.len() == 0 {
            Medium::UnknownMedium
        } else if self.has_handler(mediums[0]) {
            mediums[0]
        } else {
            self.first_available(mediums.drop_first())
        }
    }

    /// The medium to upgrade to: the one that the upgrade already has, if it is among the
    /// mediums and has a handler; the first one that has a handler, if it has none yet.
    pub open spec fn best_medium(self, endpoint_id: Seq<char>, mediums: Seq<Medium>) -> Medium {
        let current = self.bwu_medium(endpoint_id);
        if current is UnknownMedium {
            self.first_available(mediums)
        } else if mediums.contains(current) && self.has_handler(current) {
            current
        } else {
            Medium::UnknownMedium
        }
    }

    /// The delay of the next retry: the first one is as configured, and each doubles the
    /// one before, or adds the first one to it, up to a limit.
    pub open spec fn next_delay(self, endpoint_id: Seq<char>) -> u64 {
        let c = self.config;
        if !self.retry_delays.contains_key(endpoint_id) {
            c.initial_delay()
        } else {
            let last = self.retry_delays[endpoint_id];
            let next = if c.use_exp_backoff_in_bwu_retry {
                2 * last
            } else {
                last + c.initial_delay()
            };
            if next <= c.max_delay() {
                next as u64
            } else {
                c.max_delay()
            }
        }
    }

    /// A retry is set to wait.
    pub open spec fn schedule(self, endpoint_id: Seq<char>) -> BwuView {
        let delay = self.next_delay(endpoint_id);
        BwuView {
            retry_delays: self.retry_delays.insert(endpoint_id, delay),
            alarms: self.alarms.insert(endpoint_id, delay),
            ..self
        }
    }

    /// Tries the mediums until one is offered, or none is left. With none left a retry is
    /// set to wait, unless the endpoint is connected over the local network: there is
    /// nothing better to wait for.
    pub open spec fn try_next(
        self,
        client: ClientView,
        endpoint_id: Seq<char>,
        mediums: Seq<Medium>,
        offers: Seq<Offer>,
    ) -> BwuView
        decreases mediums.len(),
    {
        let next = self.best_medium(endpoint_id, mediums);
        let current = if self.channels.contains_key(endpoint_id) {
            self.channels[endpoint_id].medium
        } else {
            Medium::UnknownMedium
        };
        if !(current is WifiLan) && (next == current || next is UnknownMedium) {
            self.schedule(endpoint_id)
        } else if next is UnknownMedium || mediums.len() == 0 {
            self
        } else {
            let (tried, failed) = self.attempt(client, endpoint_id, next, offers[0]);
            if !failed {
                tried
            } else {
                let (back, goes_on) = tried.fall_back(endpoint_id);
                if !goes_on {
                    back
                } else {
                    proof {
                        lemma_untried_shorter(mediums, info_medium(bare_path(next)));
                    }
                    back.try_next(
                        client,
                        endpoint_id,
                        untried(mediums, info_medium(bare_path(next))),
                        offers.drop_first(),
                    )
                }
            }
        }
    }

    /// The peer could not be upgraded to the medium of `info`: it is given up, and those
    /// after it are tried.
    pub open spec fn failed(
        self,
        client: ClientView,
        endpoint_id: Seq<char>,
        info: bwu::UpgradePathInfoView,
        offers: Seq<Offer>,
    ) -> BwuView {
        let (back, goes_on) = self.fall_back(endpoint_id);
        if !goes_on {
            back
        } else {
            back.try_next(
                client,
                endpoint_id,
                untried(client.endpoint(endpoint_id).upgrade_mediums, info_medium(info)),
                offers,
            )
        }
    }

    /// An upgrade to `medium` is started.
    pub open spec fn initiated(
        self,
        client: ClientView,
        endpoint_id: Seq<char>,
        medium: Medium,
        offers: Seq<Offer>,
    ) -> BwuView {
        let (tried, failed) = self.attempt(client, endpoint_id, medium, offers[0]);
        if failed {
            tried.failed(client, endpoint_id, bare_path(medium), offers.drop_first())
        } else {
            tried
        }
    }

    /// The waiting retry of an endpoint is due. It starts over with all mediums, if the
    /// endpoint is still connected.
    pub open spec fn alarm_fired(
        self,
        client: ClientView,
        endpoint_id: Seq<char>,
        offers: Seq<Offer>,
    ) -> BwuView {
        let awake = BwuView { alarms: self.alarms.remove(endpoint_id), ..self };
        if !self.alarms.contains_key(endpoint_id) {
            self
        } else if !client.endpoint(endpoint_id).connected {
            awake
        } else {
            awake.try_next(
                client,
                endpoint_id,
                client.endpoint(endpoint_id).upgrade_mediums,
                offers,
            )
        }
    }

    // -----------------------------------------------------------------------
    // The handshake
    // -----------------------------------------------------------------------

    /// The peer has finished with the prior channel. This side tells that it has, too. If
    /// it has not moved to the new channel yet, that is kept in mind.
    pub open spec fn last_write_seen(self, endpoint_id: Seq<char>, write: Exception) -> BwuView {
        if !self.previous.contains_key(endpoint_id) {
            BwuView { early: self.early.insert(endpoint_id), ..self }
        } else {
            let write = self.previous[endpoint_id].writes(write);
            let told = self.previous[endpoint_id].after(
                ChannelEvent::Write(
                    frames::event_bytes(bwu::EventType::SafeToClosePriorChannel),
                    write,
                ),
            );
            let next = BwuView { previous: self.previous.insert(endpoint_id, told), ..self };
            if write.ok() {
                next
            } else {
                next.drop_previous(endpoint_id, DisconnectionReason::IoError)
            }
        }
    }

    /// The endpoint moves to a new channel: first that is paused, next it is swapped in,
    /// and only then the prior one is told so and kept until it can be closed.
    pub open spec fn moved(
        self,
        client: ClientView,
        endpoint_id: Seq<char>,
        channel: ChannelView,
        o: Outcomes,
    ) -> BwuView {
        let paused = channel.after(
            ChannelEvent::SetLocalEndpointId(client.local_endpoint_id),
        ).after(ChannelEvent::Pause);
        if !self.channels.contains_key(endpoint_id) {
            self.retire(paused)
        } else {
            let last_write = self.channels[endpoint_id].writes(o.last_write);
            let prior = self.channels[endpoint_id].after(
                ChannelEvent::Write(
                    frames::event_bytes(bwu::EventType::LastWriteToPriorChannel),
                    last_write,
                ),
            );
            let swapped = BwuView {
                channels: self.channels.insert(endpoint_id, paused),
                handovers: self.handovers.push(
                    Handover::Swapped {
                        endpoint_id,
                        prior: self.channels[endpoint_id],
                        next: paused,
                    },
                ),
                ..self
            };
            if !last_write.ok() {
                swapped.retire(prior)
            } else {
                let displaced = if self.previous.contains_key(endpoint_id) {
                    swapped.retire(self.previous[endpoint_id])
                } else {
                    swapped
                };
                let parked = BwuView {
                    previous: displaced.previous.insert(endpoint_id, prior),
                    ..displaced
                };
                if self.early.contains(endpoint_id) {
                    BwuView { early: parked.early.remove(endpoint_id), ..parked }.last_write_seen(
                        endpoint_id,
                        o.safe_to_close,
                    )
                } else {
                    parked
                }
            }
        }
    }

    /// The prior channel of an endpoint after its end: it is told a plaintext end, drained
    /// once, and closed, whatever the peer makes of it.
    pub open spec fn ended_prior(self, endpoint_id: Seq<char>, o: Outcomes) -> ChannelView {
        let prior = self.previous[endpoint_id];
        prior.after(ChannelEvent::DisableEncryption).after(
            ChannelEvent::Write(
                frames::disconnection_bytes(false, false),
                prior.writes(o.disconnection),
            ),
        ).after(ChannelEvent::Read(prior.reads(o.drain))).after(
            ChannelEvent::CloseWithReason(DisconnectionReason::Upgraded),
        )
    }

    /// The prior channel can be closed: it is ended. Only then the new channel goes on, and
    /// the upgrade is completed.
    pub open spec fn closed_prior(
        self,
        client: ClientView,
        endpoint_id: Seq<char>,
        o: Outcomes,
    ) -> (BwuView, ClientView) {
        if !self.previous.contains_key(endpoint_id) {
            (self, client)
        } else {
            let ended = self.ended_prior(endpoint_id, o);
            let next = BwuView { previous: self.previous.remove(endpoint_id), ..self }.retire(
                ended,
            );
            if !self.channels.contains_key(endpoint_id) {
                (next, client)
            } else {
                (
                    BwuView {
                        in_progress: next.in_progress.remove(endpoint_id),
                        handovers: next.handovers.push(
                            Handover::Resumed {
                                endpoint_id,
                                prior: ended,
                                next: self.channels[endpoint_id],
                            },
                        ),
                        ..next
                    }.used(endpoint_id, ChannelEvent::Resume),
                    ClientView {
                        bandwidth_changed: client.bandwidth_changed.push(
                            (endpoint_id, self.channels[endpoint_id].medium),
                        ),
                        ..client
                    },
                )
            }
        }
    }

    /// A peer has opened a channel over the medium of an upgrade. It must introduce
    /// itself, and an upgrade of its endpoint must be in progress.
    pub open spec fn connected(
        self,
        client: ClientView,
        channel: ChannelView,
        o: Outcomes,
    ) -> BwuView {
        let introduced = channel.reads(o.introduced);
        let confirmation = channel.writes(o.confirmation);
        let read = channel.after(ChannelEvent::Read(introduced));
        match introduction_read(introduced) {
            None => self.retire(read.after(ChannelEvent::Close)),
            Some(introduction) => {
                let confirmed = read.after(
                    ChannelEvent::Write(
                        frames::event_bytes(bwu::EventType::ClientIntroductionAck),
                        confirmation,
                    ),
                );
                let endpoint_id = match introduction.endpoint_id {
                    Some(id) => id,
                    None => Seq::empty(),
                };
                if !confirmation.ok() {
                    self.retire(confirmed.after(ChannelEvent::Close))
                } else if !self.in_progress.contains(endpoint_id) {
                    self.retire(confirmed)
                } else {
                    self.moved(client, endpoint_id, confirmed, o)
                }
            },
        }
    }

    // -----------------------------------------------------------------------
    // Being offered
    // -----------------------------------------------------------------------

    /// An offer is refused: the peer is told, and what was joined is left again.
    pub open spec fn refused(
        self,
        endpoint_id: Seq<char>,
        info: bwu::UpgradePathInfoView,
        write: Exception,
    ) -> BwuView {
        if !self.channels.contains_key(endpoint_id) {
            self
        } else {
            let write = self.channels[endpoint_id].writes(write);
            let told = self.used(
                endpoint_id,
                ChannelEvent::Write(frames::failure_bytes(info), write),
            );
            if !write.ok() {
                told.used(endpoint_id, ChannelEvent::CloseWithReason(DisconnectionReason::IoError))
            } else {
                let left = if self.bwu_medium(endpoint_id) is UnknownMedium {
                    told
                } else {
                    told.revert(self.channels[endpoint_id].service_id, endpoint_id)
                };
                BwuView { in_progress: left.in_progress.remove(endpoint_id), ..left }
            }
        }
    }

    /// The medium of an offer is joined, and the endpoint introduced over it. Gives the
    /// new channel.
    pub open spec fn joined(
        self,
        client: ClientView,
        endpoint_id: Seq<char>,
        info: bwu::UpgradePathInfoView,
        o: Outcomes,
    ) -> (BwuView, Option<ChannelView>) {
        let medium = info_medium(info);
        if medium != self.bwu_medium(endpoint_id) || !self.has_handler(medium)
            || !self.channels.contains_key(endpoint_id) {
            (self, None)
        } else {
            let prior = self.channels[endpoint_id];
            let last_local = if prior.local_endpoint_id().len() == 0 {
                client.last_local_endpoint_id
            } else {
                prior.local_endpoint_id()
            };
            let created = self.channel_created(client, endpoint_id, info, o);
            let asked = self.called(
                medium,
                BwuCall::Create {
                    client,
                    service_id: prior.service_id,
                    endpoint_id,
                    info,
                    channel: created,
                },
            );
            match created {
                None => (asked, None),
                Some(channel) => {
                    let introduction = channel.writes(o.introduction);
                    let confirmed = channel.reads(o.confirmed);
                    let introduced = channel.after(
                        ChannelEvent::Write(
                            frames::introduction_bytes(
                                client.local_endpoint_id,
                                last_local,
                                is_set(info.supports_disabling_encryption),
                            ),
                            introduction,
                        ),
                    );
                    if !introduction.ok() {
                        (asked.retire(introduced.after(ChannelEvent::Close)), None)
                    } else if !is_set(info.supports_client_introduction_ack) {
                        (asked, Some(introduced))
                    } else {
                        let read = introduced.after(ChannelEvent::Read(confirmed));
                        if !confirmation_read(confirmed) {
                            (asked.retire(read.after(ChannelEvent::Close)), None)
                        } else {
                            (asked, Some(read))
                        }
                    }
                },
            }
        }
    }

    /// The peer offers a medium.
    ///
    /// A hotspot and a Wi-Fi Direct group are refused while an endpoint is connected over
    /// the local network, which joining them would tear down. The side that was asked for the connection does not
    /// take offers. An offer in the middle of an upgrade means that the two sides are out
    /// of step, and closes both channels. Otherwise the medium is joined, if it is the
    /// one that the upgrade has or it has none yet.
    pub open spec fn offered(
        self,
        client: ClientView,
        endpoint_id: Seq<char>,
        info: bwu::UpgradePathInfoView,
        o: Outcomes,
    ) -> BwuView {
        let medium = info_medium(info);
        if self.tears_down_wifi_lan(medium) {
            self.refused(endpoint_id, info, o.refusal)
        } else if client.endpoint(endpoint_id).is_incoming {
            self
        } else if self.in_progress.contains(endpoint_id) {
            let next = self.drop_previous(endpoint_id, DisconnectionReason::Unfinished);
            if next.channels.contains_key(endpoint_id) {
                next.used(endpoint_id, ChannelEvent::Resume).used(
                    endpoint_id,
                    ChannelEvent::CloseWithReason(DisconnectionReason::Unfinished),
                )
            } else {
                next
            }
        } else {
            let chosen = if self.bwu_medium(endpoint_id) is UnknownMedium {
                self.with_bwu_medium(endpoint_id, medium)
            } else {
                self
            };
            if medium != chosen.bwu_medium(endpoint_id) {
                chosen.refused(endpoint_id, info, o.refusal)
            } else {
                let (next, channel) = chosen.joined(client, endpoint_id, info, o);
                match channel {
                    None => next.refused(endpoint_id, info, o.refusal),
                    Some(channel) => BwuView {
                        in_progress: next.in_progress.insert(endpoint_id),
                        ..next
                    }.moved(client, endpoint_id, channel, o),
                }
            }
        }
    }

    // -----------------------------------------------------------------------
    // Frames and disconnections
    // -----------------------------------------------------------------------

    /// A step of a bandwidth upgrade has come in. Before the connection is established an
    /// offer is refused and anything else ignored.
    pub open spec fn negotiated(
        self,
        client: ClientView,
        step: pb::BandwidthUpgradeNegotiationFrameView,
        endpoint_id: Seq<char>,
        o: Outcomes,
    ) -> (BwuView, ClientView) {
        let event = event_of(step);
        if !client.endpoint(endpoint_id).connected {
            if event is UpgradePathAvailable && step.upgrade_path_info is Some {
                (self.refused(endpoint_id, step.upgrade_path_info->0, o.refusal), client)
            } else {
                (self, client)
            }
        } else {
            match event {
                bwu::EventType::UpgradePathAvailable => match step.upgrade_path_info {
                    Some(info) => (self.offered(client, endpoint_id, info, o), client),
                    None => (self, client),
                },
                bwu::EventType::UpgradeFailure => match step.upgrade_path_info {
                    Some(info) => (self.failed(client, endpoint_id, info, o.offers), client),
                    None => (self, client),
                },
                bwu::EventType::LastWriteToPriorChannel => if self.in_progress.contains(
                    endpoint_id,
                ) {
                    (self.last_write_seen(endpoint_id, o.safe_to_close), client)
                } else {
                    (self, client)
                },
                bwu::EventType::SafeToClosePriorChannel => if self.in_progress.contains(
                    endpoint_id,
                ) {
                    self.closed_prior(client, endpoint_id, o)
                } else {
                    (self, client)
                },
                _ => (self, client),
            }
        }
    }

    /// A frame has come in. Frames that carry no step of a bandwidth upgrade are ignored.
    pub open spec fn received(
        self,
        client: ClientView,
        frame: pb::OfflineFrameView,
        endpoint_id: Seq<char>,
        o: Outcomes,
    ) -> (BwuView, ClientView) {
        if !(frames::frame_type_of(frame) is BandwidthUpgradeNegotiation) {
            (self, client)
        } else {
            match frame.v1->0.bandwidth_upgrade_negotiation {
                Some(step) => self.negotiated(client, step, endpoint_id, o),
                None => (self, client),
            }
        }
    }

    /// An endpoint has disconnected: its upgrade is forgotten, and its medium given up
    /// unless other endpoints share it.
    pub open spec fn disconnected(
        self,
        client: ClientView,
        service_id: Seq<char>,
        endpoint_id: Seq<char>,
    ) -> BwuView {
        let medium = self.bwu_medium(endpoint_id);
        let told = if self.has_handler(medium) {
            self.called(medium, BwuCall::Disconnect { client, endpoint_id })
        } else {
            self
        };
        let dropped = told.drop_previous(endpoint_id, DisconnectionReason::Shutdown);
        let forgotten = BwuView {
            in_progress: dropped.in_progress.remove(endpoint_id),
            early: dropped.early.remove(endpoint_id),
            retry_delays: dropped.retry_delays.remove(endpoint_id),
            alarms: dropped.alarms.remove(endpoint_id),
            ..dropped
        };
        if self.medium_is_shared() {
            forgotten
        } else {
            forgotten.revert(service_id, endpoint_id)
        }
    }

    /// Everything is reverted and forgotten, but for the channels of the endpoints. The
    /// prior channels are let go as they are, in some order.
    pub open spec fn shut_down(self, order: Seq<Seq<char>>) -> BwuView {
        BwuView {
            handlers: Map::new(
                |m: Medium| self.handlers.contains_key(m),
                |m: Medium| self.handlers[m].after(BwuCall::RevertAll),
            ),
            in_progress: Set::empty(),
            previous: Map::empty(),
            early: Set::empty(),
            retry_delays: Map::empty(),
            alarms: Map::empty(),
            retired: self.retired + Seq::new(order.len(), |i: int| self.previous[order[i]]),
            ..self
        }
    }
}

/// `order` lists the endpoints of some channels, each once.
pub open spec fn lists_channels(
    order: Seq<Seq<char>>,
    channels: Map<Seq<char>, ChannelView>,
) -> bool {
    &&& order.no_duplicates()
    &&& forall|k: Seq<char>| #[trigger] order.contains(k) <==> channels.contains_key(k)
}

} // verus!

//! What an upgrade does for the two sides of a connection.
//!
//! The laws here are about what a peer sees: the frames that are written, read as the peer
//! reads them, with the numbers that stand for their events, and the channel that each
//! endpoint has in the end.

use vstd::prelude::*;

use crate::bwu::channel;
use crate::bwu::channel::{ChannelEvent, ChannelView, DisconnectionReason};
use crate::bwu::client::ClientView;
use crate::bwu::handler::BwuCall;
use crate::bwu::laws;
use crate::bwu::model;
use crate::bwu::model::{BwuView, Outcomes};
use crate::bwu::service_id;
use crate::frames;
use crate::frames::Exception;
use crate::mediums::Medium;
use crate::proto as pb;
use crate::proto::bandwidth_upgrade_negotiation_frame as bwu;

verus! {

// ---------------------------------------------------------------------------
// What a peer reads
// ---------------------------------------------------------------------------

/// The step of an upgrade that a peer reads from some bytes: they are a valid frame of
/// version 1, whose type is the one of upgrades.
pub open spec fn step_read(bytes: Seq<u8>) -> Option<pb::BandwidthUpgradeNegotiationFrameView> {
    match frames::parsed(bytes) {
        Ok(frame) => match frame.v1 {
            Some(v1) => if frame.version == Some(1i32) && v1.type_ == Some(4i32) {
                v1.bandwidth_upgrade_negotiation
            } else {
                None
            },
            None => None,
        },
        Err(_) => None,
    }
}

/// The bytes are read as an event that carries nothing.
pub open spec fn reads_event(bytes: Seq<u8>, number: i32) -> bool {
    step_read(bytes) matches Some(step) && step.event_type == Some(number)
        && step.upgrade_path_info is None && step.client_introduction is None
}

/// The bytes are read as an event that carries an upgrade path.
pub open spec fn reads_path(bytes: Seq<u8>, number: i32, info: bwu::UpgradePathInfoView) -> bool {
    step_read(bytes) matches Some(step) && step.event_type == Some(number)
        && step.upgrade_path_info == Some(info) && step.client_introduction is None
}

/// The bytes are read as the introduction of an endpoint.
pub open spec fn reads_introduction(
    bytes: Seq<u8>,
    endpoint_id: Seq<char>,
    last_endpoint_id: Seq<char>,
    supports_disabling_encryption: bool,
) -> bool {
    &&& step_read(bytes) matches Some(step)
    &&& step.event_type == Some(4i32)
    &&& step.client_introduction matches Some(introduction)
    &&& introduction.endpoint_id == Some(endpoint_id)
    &&& introduction.supports_disabling_encryption == Some(supports_disabling_encryption)
    &&& if last_endpoint_id.len() > 0 {
        introduction.last_endpoint_id == Some(last_endpoint_id)
    } else {
        introduction.last_endpoint_id is None
    }
}

/// The bytes are taken for the confirmation of an introduction.
pub open spec fn confirms(bytes: Seq<u8>) -> bool {
    &&& frames::parsed(bytes) matches Ok(frame)
    &&& frame.v1 matches Some(v1)
    &&& v1.bandwidth_upgrade_negotiation matches Some(step)
    &&& step.event_type == Some(6i32)
}

proof fn lemma_step_read(step: pb::BandwidthUpgradeNegotiationFrameView)
    requires
        frames::negotiation_bytes(step).len() <= u64::MAX,
        crate::validator::negotiation_verdict(step).ok(),
    ensures
        step_read(frames::negotiation_bytes(step)) == Some(step),
{
    frames::lemma_parsed_frame_bytes(laws::step_frame(step).v1->0);
}

/// The last write, the end of the prior channel and the confirmation of an introduction are
/// read as the events with their numbers.
pub proof fn lemma_events_read()
    ensures
        ({
            let bytes = frames::event_bytes(bwu::EventType::LastWriteToPriorChannel);
            bytes.len() <= u64::MAX ==> reads_event(bytes, 2)
        }),
        ({
            let bytes = frames::event_bytes(bwu::EventType::SafeToClosePriorChannel);
            bytes.len() <= u64::MAX ==> reads_event(bytes, 3)
        }),
        ({
            let bytes = frames::event_bytes(bwu::EventType::ClientIntroductionAck);
            bytes.len() <= u64::MAX ==> reads_event(bytes, 6)
        }),
{
    let last = laws::event_step(bwu::EventType::LastWriteToPriorChannel);
    let safe = laws::event_step(bwu::EventType::SafeToClosePriorChannel);
    let ack = laws::event_step(bwu::EventType::ClientIntroductionAck);
    if frames::negotiation_bytes(last).len() <= u64::MAX {
        lemma_step_read(last);
    }
    if frames::negotiation_bytes(safe).len() <= u64::MAX {
        lemma_step_read(safe);
    }
    if frames::negotiation_bytes(ack).len() <= u64::MAX {
        lemma_step_read(ack);
    }
}

/// A failure is read as such, with the path that could not be reached.
pub proof fn lemma_failure_read(info: bwu::UpgradePathInfoView)
    requires
        frames::failure_bytes(info).len() <= u64::MAX,
    ensures
        reads_path(frames::failure_bytes(info), 5, info),
{
    lemma_step_read(laws::failure_step(info));
}

/// An introduction is read as such, whatever is told in it.
pub proof fn lemma_introduction_read(
    endpoint_id: Seq<char>,
    last_endpoint_id: Seq<char>,
    supports_disabling_encryption: bool,
)
    requires
        frames::introduction_bytes(
            endpoint_id,
            last_endpoint_id,
            supports_disabling_encryption,
        ).len() <= u64::MAX,
    ensures
        reads_introduction(
            frames::introduction_bytes(
                endpoint_id,
                last_endpoint_id,
                supports_disabling_encryption,
            ),
            endpoint_id,
            last_endpoint_id,
            supports_disabling_encryption,
        ),
{
    let step = pb::BandwidthUpgradeNegotiationFrameView {
        event_type: Some(bwu::EventType::ClientIntroduction.value()),
        client_introduction: Some(
            bwu::ClientIntroductionView {
                endpoint_id: Some(endpoint_id),
                supports_disabling_encryption: Some(supports_disabling_encryption),
                last_endpoint_id: frames::unless_empty(last_endpoint_id),
            },
        ),
        ..pb::BandwidthUpgradeNegotiationFrameView::unset()
    };
    lemma_step_read(step);
}

// ---------------------------------------------------------------------------
// Taking an offer
// ---------------------------------------------------------------------------

/// The channel that the handler of a medium opens for the path of an offer.
pub open spec fn opened_for(
    a: BwuView,
    client: ClientView,
    endpoint_id: Seq<char>,
    medium: Medium,
    info: bwu::UpgradePathInfoView,
    o: Outcomes,
) -> Option<ChannelView> {
    match (a.handlers[medium].replies.channel)(
        client,
        a.channels[endpoint_id].service_id,
        endpoint_id,
        info,
    ) {
        Some(known) => known,
        None => o.created,
    }
}

/// An offer of `medium` reaches an endpoint that can take it: the endpoint is connected,
/// it asked for the connection itself, no upgrade of it is under way, its upgrade has no
/// other medium, the medium has a handler, and to join it does not tear down the local
/// network.
pub open spec fn may_take(
    a: BwuView,
    client: ClientView,
    endpoint_id: Seq<char>,
    medium: Medium,
) -> bool {
    &&& a.channels.contains_key(endpoint_id)
    &&& client.endpoints.contains_key(endpoint_id) ==> !client.endpoints[endpoint_id].is_incoming
    &&& !a.in_progress.contains(endpoint_id)
    &&& !a.early.contains(endpoint_id)
    &&& medium != Medium::UnknownMedium
    &&& a.handlers.contains_key(medium)
    &&& if a.config.support_multiple_bwu_mediums {
        a.mediums.contains_key(endpoint_id) ==> a.mediums[endpoint_id] == medium
            || a.mediums[endpoint_id] == Medium::UnknownMedium
    } else {
        a.medium == medium || a.medium == Medium::UnknownMedium
    }
    &&& medium == Medium::WifiHotspot || medium == Medium::WifiDirect ==> forall|k: Seq<char>|
        #[trigger]
        a.channels.contains_key(k) ==> a.channels[k].medium != Medium::WifiLan
}

/// The number of a medium in an upgrade path.
pub open spec fn names(info: bwu::UpgradePathInfoView, medium: Medium) -> bool {
    match medium {
        Medium::Mdns => info.medium == Some(1i32),
        Medium::Bluetooth => info.medium == Some(2i32),
        Medium::WifiHotspot => info.medium == Some(3i32),
        Medium::Ble => info.medium == Some(4i32),
        Medium::WifiLan => info.medium == Some(5i32),
        Medium::WifiAware => info.medium == Some(6i32),
        Medium::Nfc => info.medium == Some(7i32),
        Medium::WifiDirect => info.medium == Some(8i32),
        Medium::WebRtc => info.medium == Some(9i32),
        Medium::Usb => info.medium == Some(11i32),
        Medium::WebRtcNonCellular => info.medium == Some(12i32),
        Medium::Awdl => info.medium == Some(13i32),
        Medium::BleL2cap => false,
        Medium::UnknownMedium => false,
    }
}

/// The channel opens well for an introduction: it is written, and confirmed if the offer
/// asks for that.
pub open spec fn introduces_well(
    channel: ChannelView,
    info: bwu::UpgradePathInfoView,
    o: Outcomes,
) -> bool {
    &&& channel.writes(o.introduction) == Exception::Success
    &&& info.supports_client_introduction_ack == Some(true) ==> (channel.reads(o.confirmed) matches Ok(
        bytes,
    ) && confirms(bytes))
}

/// The local endpoint id that the peer knew before: the one of the channel that the
/// endpoint has, or else the last one of the client.
pub open spec fn known_before(prior: ChannelView, client: ClientView) -> Seq<char> {
    if prior.local_endpoint_id().len() > 0 {
        prior.local_endpoint_id()
    } else {
        client.last_local_endpoint_id
    }
}

/// The new channel after the introduction, and the confirmation if it is asked for.
spec fn introduced_over(
    channel: ChannelView,
    client: ClientView,
    known: Seq<char>,
    info: bwu::UpgradePathInfoView,
    o: Outcomes,
) -> ChannelView {
    let written = channel.after(
        ChannelEvent::Write(
            frames::introduction_bytes(
                client.local_endpoint_id,
                known,
                info.supports_disabling_encryption == Some(true),
            ),
            channel.writes(o.introduction),
        ),
    );
    if info.supports_client_introduction_ack == Some(true) {
        written.after(ChannelEvent::Read(channel.reads(o.confirmed)))
    } else {
        written
    }
}

/// What is held after an offer was joined, before the move.
spec fn joined_by(
    a: BwuView,
    client: ClientView,
    endpoint_id: Seq<char>,
    medium: Medium,
    info: bwu::UpgradePathInfoView,
    channel: Option<ChannelView>,
) -> BwuView {
    let chosen = if a.bwu_medium(endpoint_id) is UnknownMedium {
        a.with_bwu_medium(endpoint_id, medium)
    } else {
        a
    };
    chosen.called(
        medium,
        BwuCall::Create {
            client,
            service_id: a.channels[endpoint_id].service_id,
            endpoint_id,
            info,
            channel,
        },
    )
}

proof fn lemma_may_take(
    a: BwuView,
    client: ClientView,
    endpoint_id: Seq<char>,
    medium: Medium,
    info: bwu::UpgradePathInfoView,
)
    requires
        may_take(a, client, endpoint_id, medium),
        names(info, medium),
    ensures
        model::info_medium(info) == medium,
        !client.endpoint(endpoint_id).is_incoming,
        !a.tears_down_wifi_lan(medium),
        a.has_handler(medium),
        a.bwu_medium(endpoint_id) is UnknownMedium || a.bwu_medium(endpoint_id) == medium,
{
}

proof fn lemma_offer_joined(
    a: BwuView,
    client: ClientView,
    endpoint_id: Seq<char>,
    medium: Medium,
    info: bwu::UpgradePathInfoView,
    o: Outcomes,
)
    requires
        may_take(a, client, endpoint_id, medium),
        names(info, medium),
        opened_for(a, client, endpoint_id, medium, info, o) matches Some(channel)
            && introduces_well(channel, info, o),
    ensures
        ({
            let channel = opened_for(a, client, endpoint_id, medium, info, o);
            let c = joined_by(a, client, endpoint_id, medium, info, channel);
            a.offered(client, endpoint_id, info, o) == BwuView {
                in_progress: c.in_progress.insert(endpoint_id),
                ..c
            }.moved(
                client,
                endpoint_id,
                introduced_over(
                    channel->0,
                    client,
                    known_before(a.channels[endpoint_id], client),
                    info,
                    o,
                ),
                o,
            )
        }),
{
    lemma_may_take(a, client, endpoint_id, medium, info);
    let chosen = if a.bwu_medium(endpoint_id) is UnknownMedium {
        a.with_bwu_medium(endpoint_id, medium)
    } else {
        a
    };
    let channel = opened_for(a, client, endpoint_id, medium, info, o);
    assert(chosen.bwu_medium(endpoint_id) == medium);
    assert(chosen.channel_created(client, endpoint_id, info, o) == channel);
    assert(chosen.joined(client, endpoint_id, info, o) == (
        joined_by(a, client, endpoint_id, medium, info, channel),
        Some(
            introduced_over(
                channel->0,
                client,
                known_before(a.channels[endpoint_id], client),
                info,
                o,
            ),
        ),
    ));
}

/// An offer that can be taken and joined is taken.
///
/// The first thing that is done to the new channel is to write the introduction of the
/// local endpoint, by which the peer finds its upgrade in progress, with the id that the
/// peer knew before. If the offer asks for it, the confirmation is read next. After that
/// the new channel is given the local endpoint id and paused, and nothing else. The
/// handler was asked once, for the service of the prior channel and with the path of the
/// offer. The endpoint has the new channel, and the upgrade is in progress over the medium
/// of the offer.
pub proof fn lemma_offer_introduces(
    a: BwuView,
    client: ClientView,
    endpoint_id: Seq<char>,
    medium: Medium,
    info: bwu::UpgradePathInfoView,
    o: Outcomes,
)
    requires
        may_take(a, client, endpoint_id, medium),
        names(info, medium),
        opened_for(a, client, endpoint_id, medium, info, o) matches Some(channel)
            && introduces_well(channel, info, o),
        a.channels[endpoint_id].writes(o.last_write) == Exception::Success,
        frames::introduction_bytes(
            client.local_endpoint_id,
            known_before(a.channels[endpoint_id], client),
            info.supports_disabling_encryption == Some(true),
        ).len() <= u64::MAX,
    ensures
        ({
            let b = a.offered(client, endpoint_id, info, o);
            let prior = a.channels[endpoint_id];
            let new = opened_for(a, client, endpoint_id, medium, info, o)->0;
            let next = b.channels[endpoint_id];
            let n = new.history.len() as int;
            let asks = info.supports_client_introduction_ack == Some(true);
            let m = if asks {
                n + 2
            } else {
                n + 1
            };
            &&& b.channels.dom() == a.channels.dom()
            &&& next.medium == new.medium
            &&& next.history.len() == m + 2
            &&& next.history.take(n) == new.history
            &&& next.history[n] matches ChannelEvent::Write(bytes, written) && written
                == Exception::Success && reads_introduction(
                bytes,
                client.local_endpoint_id,
                known_before(prior, client),
                info.supports_disabling_encryption == Some(true),
            )
            &&& asks ==> next.history[n + 1] == ChannelEvent::Read(new.reads(o.confirmed))
            &&& next.history[m] == ChannelEvent::SetLocalEndpointId(client.local_endpoint_id)
            &&& next.history[m + 1] == ChannelEvent::Pause
            &&& b.in_progress.contains(endpoint_id)
            &&& b.bwu_medium(endpoint_id) == medium
            &&& b.handlers.dom() == a.handlers.dom()
            &&& b.handlers[medium].calls == a.handlers[medium].calls.push(
                BwuCall::Create {
                    client,
                    service_id: prior.service_id,
                    endpoint_id,
                    info,
                    channel: Some(new),
                },
            )
            &&& b.retired == (if a.previous.contains_key(endpoint_id) {
                a.retired.push(a.previous[endpoint_id])
            } else {
                a.retired
            })
        }),
{
    let b = a.offered(client, endpoint_id, info, o);
    let prior = a.channels[endpoint_id];
    let known = known_before(prior, client);
    let opened = opened_for(a, client, endpoint_id, medium, info, o);
    let new = opened->0;
    let n = new.history.len() as int;
    lemma_may_take(a, client, endpoint_id, medium, info);
    lemma_offer_joined(a, client, endpoint_id, medium, info, o);
    lemma_introduction_read(
        client.local_endpoint_id,
        known,
        info.supports_disabling_encryption == Some(true),
    );
    let c = joined_by(a, client, endpoint_id, medium, info, opened);
    let d = BwuView { in_progress: c.in_progress.insert(endpoint_id), ..c };
    let channel = introduced_over(new, client, known, info, o);
    laws::lemma_moved_in_order(d, client, endpoint_id, channel, o);
    let next = b.channels[endpoint_id];
    assert(next.history == channel.history.push(
        ChannelEvent::SetLocalEndpointId(client.local_endpoint_id),
    ).push(ChannelEvent::Pause));
    assert(next.history.take(n) =~= new.history);
    assert(b.channels.dom() =~= a.channels.dom());
    assert(b.handlers == c.handlers);
    assert(b.handlers.dom() =~= a.handlers.dom());
}

/// The prior channel of an endpoint that took an offer is kept open: the last write went
/// out on it, after everything that it was used for before, and nothing else was done to
/// it.
pub proof fn lemma_offer_parks(
    a: BwuView,
    client: ClientView,
    endpoint_id: Seq<char>,
    medium: Medium,
    info: bwu::UpgradePathInfoView,
    o: Outcomes,
)
    requires
        may_take(a, client, endpoint_id, medium),
        names(info, medium),
        opened_for(a, client, endpoint_id, medium, info, o) matches Some(channel)
            && introduces_well(channel, info, o),
        a.channels[endpoint_id].writes(o.last_write) == Exception::Success,
        frames::event_bytes(bwu::EventType::LastWriteToPriorChannel).len() <= u64::MAX,
    ensures
        ({
            let b = a.offered(client, endpoint_id, info, o);
            let before = a.channels[endpoint_id];
            let prior = b.previous[endpoint_id];
            let n = before.history.len() as int;
            &&& b.previous.contains_key(endpoint_id)
            &&& prior.medium == before.medium
            &&& prior.replies == before.replies
            &&& prior.history.len() == n + 1
            &&& prior.history.take(n) == before.history
            &&& prior.history[n] matches ChannelEvent::Write(bytes, written)
            &&& written == Exception::Success
            &&& reads_event(bytes, 2)
        }),
{
    lemma_events_read();
    lemma_may_take(a, client, endpoint_id, medium, info);
    lemma_offer_joined(a, client, endpoint_id, medium, info, o);
    let opened = opened_for(a, client, endpoint_id, medium, info, o);
    let c = joined_by(a, client, endpoint_id, medium, info, opened);
    let d = BwuView { in_progress: c.in_progress.insert(endpoint_id), ..c };
    let known = known_before(a.channels[endpoint_id], client);
    let channel = introduced_over(opened->0, client, known, info, o);
    laws::lemma_moved_in_order(d, client, endpoint_id, channel, o);
    let prior = a.offered(client, endpoint_id, info, o).previous[endpoint_id];
    assert(prior.history.take(a.channels[endpoint_id].history.len() as int)
        =~= a.channels[endpoint_id].history);
}

// ---------------------------------------------------------------------------
// Giving a medium up
// ---------------------------------------------------------------------------

/// Nothing differs but the mediums of upgrades and what handlers were called with.
pub open spec fn differs_in_mediums(a: BwuView, b: BwuView) -> bool {
    &&& b.config == a.config
    &&& b.channels == a.channels
    &&& b.in_progress == a.in_progress
    &&& b.previous == a.previous
    &&& b.early == a.early
    &&& b.retry_delays == a.retry_delays
    &&& b.alarms == a.alarms
    &&& b.retired == a.retired
    &&& b.dropped == a.dropped
    &&& b.handovers == a.handovers
}

/// The handlers are the same but for the calls of one, which has one more.
pub open spec fn one_more_call(a: BwuView, b: BwuView, medium: Medium, call: BwuCall) -> bool {
    &&& b.handlers.dom() == a.handlers.dom()
    &&& forall|m: Medium| #[trigger]
        a.handlers.contains_key(m) && m != medium ==> b.handlers[m] == a.handlers[m]
    &&& b.handlers[medium].calls == a.handlers[medium].calls.push(call)
    &&& b.handlers[medium].replies == a.handlers[medium].replies
    &&& b.handlers[medium].sound == a.handlers[medium].sound
}

/// To give up the medium of an endpoint leaves it with none, and no other endpoint with
/// less than it had, where each has its own.
///
/// The handler of the medium is called once. Where one medium serves all, it reverts
/// everything. Where each endpoint has its own, the side that set the medium up, whose
/// service id ends in `_UPGRADE`, reverts what it did for the endpoint; the side that
/// joined it leaves a hotspot or a Wi-Fi Direct group, and nothing else has to be left.
pub proof fn lemma_medium_given_up(
    a: BwuView,
    service_id: Seq<char>,
    endpoint_id: Seq<char>,
    medium: Medium,
    other: Seq<char>,
)
    requires
        a.bwu_medium(endpoint_id) == medium,
        other != endpoint_id,
    ensures
        ({
            let b = a.revert(service_id, endpoint_id);
            let several = a.config.support_multiple_bwu_mediums;
            let set_up = crate::text::ends_in(service_id, "_UPGRADE"@);
            &&& differs_in_mediums(a, b)
            &&& b.bwu_medium(endpoint_id) == Medium::UnknownMedium
            &&& several ==> b.bwu_medium(other) == a.bwu_medium(other)
            &&& if medium == Medium::UnknownMedium || !a.handlers.contains_key(medium) {
                b.handlers == a.handlers
            } else if !several {
                one_more_call(a, b, medium, BwuCall::RevertAll)
            } else if set_up {
                one_more_call(
                    a,
                    b,
                    medium,
                    BwuCall::RevertEndpoint { upgrade_service_id: service_id, endpoint_id },
                )
            } else if medium == Medium::WifiHotspot || medium == Medium::WifiDirect {
                one_more_call(a, b, medium, BwuCall::RevertResponder { service_id })
            } else {
                b.handlers == a.handlers
            }
        }),
{
    let b = a.revert(service_id, endpoint_id);
    assert(service_id::is_wrapped(service_id) == crate::text::ends_in(service_id, "_UPGRADE"@)) by {
        reveal_strlit("_UPGRADE");
    }
    if a.handlers.contains_key(medium) {
        assert(a.handlers.insert(medium, b.handlers[medium]).dom() =~= a.handlers.dom());
    }
}

/// What a refusal comes to, seen from the peer and from the endpoint: the failure of the
/// offered path is written on the channel that the endpoint has. If that went out, the
/// endpoint has no medium and no upgrade in progress. If not, its channel is closed.
pub open spec fn turned_down(
    a: BwuView,
    b: BwuView,
    endpoint_id: Seq<char>,
    info: bwu::UpgradePathInfoView,
    written: Exception,
) -> bool {
    let before = a.channels[endpoint_id].history;
    let after = b.channels[endpoint_id].history;
    let n = before.len() as int;
    &&& b.channels.dom() == a.channels.dom()
    &&& b.channels[endpoint_id].medium == a.channels[endpoint_id].medium
    &&& b.channels[endpoint_id].service_id == a.channels[endpoint_id].service_id
    &&& b.channels[endpoint_id].replies == a.channels[endpoint_id].replies
    &&& after.len() > n
    &&& after.take(n) == before
    &&& after[n] matches ChannelEvent::Write(bytes, outcome)
    &&& outcome == written
    &&& reads_path(bytes, 5, info)
    &&& if written == Exception::Success {
        &&& after.len() == n + 1
        &&& b.bwu_medium(endpoint_id) == Medium::UnknownMedium
        &&& b.in_progress == a.in_progress.remove(endpoint_id)
    } else {
        &&& after.len() == n + 2
        &&& after[n + 1] == ChannelEvent::CloseWithReason(DisconnectionReason::IoError)
        &&& b.in_progress == a.in_progress
    }
    &&& b.previous == a.previous
    &&& b.early == a.early
    &&& b.alarms == a.alarms
    &&& b.retry_delays == a.retry_delays
    &&& b.retired == a.retired
    &&& b.handovers == a.handovers
}

/// An offer that is refused is turned down, and what was joined of its medium is left: a
/// hotspot or a Wi-Fi Direct group, where each endpoint has its own medium; everything,
/// where one medium serves all.
pub proof fn lemma_turned_down(
    a: BwuView,
    endpoint_id: Seq<char>,
    info: bwu::UpgradePathInfoView,
    write: Exception,
)
    requires
        a.channels.contains_key(endpoint_id),
        frames::failure_bytes(info).len() <= u64::MAX,
    ensures
        ({
            let b = a.refused(endpoint_id, info, write);
            let prior = a.channels[endpoint_id];
            let medium = a.bwu_medium(endpoint_id);
            let several = a.config.support_multiple_bwu_mediums;
            &&& turned_down(a, b, endpoint_id, info, prior.writes(write))
            &&& prior.writes(write) != Exception::Success ==> b.handlers == a.handlers && b.medium
                == a.medium && b.mediums == a.mediums
            &&& prior.writes(write) == Exception::Success && medium != Medium::UnknownMedium
                && a.handlers.contains_key(medium) ==> {
                &&& !several ==> one_more_call(a, b, medium, BwuCall::RevertAll)
                &&& several && !crate::text::ends_in(prior.service_id, "_UPGRADE"@) && (medium
                    == Medium::WifiHotspot || medium == Medium::WifiDirect) ==> one_more_call(
                    a,
                    b,
                    medium,
                    BwuCall::RevertResponder { service_id: prior.service_id },
                )
            }
        }),
{
    let b = a.refused(endpoint_id, info, write);
    let prior = a.channels[endpoint_id];
    let event = ChannelEvent::Write(frames::failure_bytes(info), prior.writes(write));
    let told = a.used(endpoint_id, event);
    lemma_failure_read(info);
    let other = endpoint_id.push('x');
    assert(other.len() != endpoint_id.len());
    lemma_medium_given_up(
        told,
        prior.service_id,
        endpoint_id,
        a.bwu_medium(endpoint_id),
        other,
    );
    assert(told.bwu_medium(endpoint_id) == a.bwu_medium(endpoint_id));
    assert(told.channels.dom() =~= a.channels.dom());
    assert(told.channels[endpoint_id].history.take(prior.history.len() as int) =~= prior.history);
    if !prior.writes(write).ok() {
        assert(b.channels.dom() =~= a.channels.dom());
        assert(b.channels[endpoint_id].history.take(prior.history.len() as int) =~= prior.history);
    }
}

/// An offer that the handler could not join is refused as it was adopted.
proof fn lemma_unjoined(
    a: BwuView,
    client: ClientView,
    endpoint_id: Seq<char>,
    medium: Medium,
    info: bwu::UpgradePathInfoView,
    o: Outcomes,
)
    requires
        may_take(a, client, endpoint_id, medium),
        names(info, medium),
        opened_for(a, client, endpoint_id, medium, info, o) is None,
    ensures
        ({
            let c = joined_by(a, client, endpoint_id, medium, info, None);
            &&& a.offered(client, endpoint_id, info, o) == c.refused(endpoint_id, info, o.refusal)
            &&& c.handlers.dom() == a.handlers.dom()
            &&& c.handlers[medium].replies == a.handlers[medium].replies
            &&& forall|m: Medium| #[trigger]
                a.handlers.contains_key(m) ==> c.handlers[m].replies == a.handlers[m].replies
            &&& c.channels == a.channels
            &&& c.early == a.early
            &&& c.bwu_medium(endpoint_id) == medium
        }),
{
    lemma_may_take(a, client, endpoint_id, medium, info);
    let chosen = if a.bwu_medium(endpoint_id) is UnknownMedium {
        a.with_bwu_medium(endpoint_id, medium)
    } else {
        a
    };
    assert(chosen.channel_created(client, endpoint_id, info, o) is None);
    let c = joined_by(a, client, endpoint_id, medium, info, None);
    assert(chosen.joined(client, endpoint_id, info, o) == (c, None::<ChannelView>));
    assert(c.handlers.dom() =~= a.handlers.dom());
}

/// A refusal that went out, as far as the next offer sees it.
proof fn lemma_refused_once(
    a: BwuView,
    endpoint_id: Seq<char>,
    info: bwu::UpgradePathInfoView,
    write: Exception,
    medium: Medium,
)
    requires
        a.channels.contains_key(endpoint_id),
        a.channels[endpoint_id].writes(write) == Exception::Success,
        a.handlers.contains_key(medium),
    ensures
        ({
            let b = a.refused(endpoint_id, info, write);
            let before = a.channels[endpoint_id];
            let after = b.channels[endpoint_id];
            &&& after.service_id == before.service_id
            &&& after.replies == before.replies
            &&& after.local_endpoint_id() == before.local_endpoint_id()
            &&& b.handlers[medium].replies == a.handlers[medium].replies
            &&& !b.in_progress.contains(endpoint_id)
            &&& b.bwu_medium(endpoint_id) is UnknownMedium
        }),
{
    let b = a.refused(endpoint_id, info, write);
    let prior = a.channels[endpoint_id];
    let event = ChannelEvent::Write(frames::failure_bytes(info), prior.writes(write));
    let told = a.used(endpoint_id, event);
    laws::lemma_refused_keeps(a, endpoint_id, info, write);
    assert(laws::goes_on(a.handlers[medium], b.handlers[medium]));
    let other = endpoint_id.push('x');
    assert(other.len() != endpoint_id.len());
    lemma_medium_given_up(
        told,
        prior.service_id,
        endpoint_id,
        told.bwu_medium(endpoint_id),
        other,
    );
    assert(b.channels[endpoint_id] == prior.after(event));
    assert(prior.after(event).history.drop_last() =~= prior.history);
}

/// A medium that the handler could not join is refused: the handler was asked once, and the
/// offer is turned down.
pub proof fn lemma_unjoined_turned_down(
    a: BwuView,
    client: ClientView,
    endpoint_id: Seq<char>,
    medium: Medium,
    info: bwu::UpgradePathInfoView,
    o: Outcomes,
)
    requires
        may_take(a, client, endpoint_id, medium),
        names(info, medium),
        opened_for(a, client, endpoint_id, medium, info, o) is None,
        frames::failure_bytes(info).len() <= u64::MAX,
    ensures
        ({
            let b = a.offered(client, endpoint_id, info, o);
            let prior = a.channels[endpoint_id];
            let asked = BwuCall::Create {
                client,
                service_id: prior.service_id,
                endpoint_id,
                info,
                channel: None,
            };
            let calls = a.handlers[medium].calls.push(asked);
            &&& turned_down(a, b, endpoint_id, info, prior.writes(o.refusal))
            &&& prior.writes(o.refusal) != Exception::Success ==> b.bwu_medium(endpoint_id)
                == medium && b.handlers[medium].calls == calls
            &&& b.handlers.dom() == a.handlers.dom()
            &&& b.handlers[medium].replies == a.handlers[medium].replies
            &&& laws::grows(calls, b.handlers[medium].calls)
            &&& prior.writes(o.refusal) == Exception::Success && a.config.support_multiple_bwu_mediums
                && !crate::text::ends_in(prior.service_id, "_UPGRADE"@) && (medium
                == Medium::WifiHotspot || medium == Medium::WifiDirect) ==> b.handlers[medium].calls
                == calls.push(BwuCall::RevertResponder { service_id: prior.service_id })
        }),
{
    lemma_unjoined(a, client, endpoint_id, medium, info, o);
    let c = joined_by(a, client, endpoint_id, medium, info, None);
    lemma_turned_down(c, endpoint_id, info, o.refusal);
    laws::lemma_refused_keeps(c, endpoint_id, info, o.refusal);
    assert(laws::goes_on(c.handlers[medium], c.refused(
        endpoint_id,
        info,
        o.refusal,
    ).handlers[medium]));
}

/// The part of [`may_take`] that a refusal does not change, with the medium left open.
pub open spec fn may_take_next(
    a: BwuView,
    client: ClientView,
    endpoint_id: Seq<char>,
    medium: Medium,
) -> bool {
    &&& a.channels.contains_key(endpoint_id)
    &&& client.endpoints.contains_key(endpoint_id) ==> !client.endpoints[endpoint_id].is_incoming
    &&& !a.early.contains(endpoint_id)
    &&& medium != Medium::UnknownMedium
    &&& a.handlers.contains_key(medium)
    &&& medium == Medium::WifiHotspot || medium == Medium::WifiDirect ==> forall|k: Seq<char>|
        #[trigger]
        a.channels.contains_key(k) ==> a.channels[k].medium != Medium::WifiLan
}

/// After a refusal that went out, an offer of any other medium can be taken, whatever the
/// medium of the upgrade was before.
pub proof fn lemma_free_after_refusal(
    a: BwuView,
    client: ClientView,
    endpoint_id: Seq<char>,
    refused: bwu::UpgradePathInfoView,
    write: Exception,
    medium: Medium,
)
    requires
        may_take_next(a, client, endpoint_id, medium),
        a.channels[endpoint_id].writes(write) == Exception::Success,
    ensures
        may_take(a.refused(endpoint_id, refused, write), client, endpoint_id, medium),
{
    let b = a.refused(endpoint_id, refused, write);
    laws::lemma_refused_keeps(a, endpoint_id, refused, write);
    let prior = a.channels[endpoint_id];
    let told = a.used(
        endpoint_id,
        ChannelEvent::Write(frames::failure_bytes(refused), prior.writes(write)),
    );
    let other = endpoint_id.push('x');
    assert(other.len() != endpoint_id.len());
    lemma_medium_given_up(
        told,
        prior.service_id,
        endpoint_id,
        told.bwu_medium(endpoint_id),
        other,
    );
    assert(b.handlers.dom().contains(medium));
    assert(b.bwu_medium(endpoint_id) is UnknownMedium);
    assert forall|k: Seq<char>| #[trigger] b.channels.contains_key(k) implies a.channels.contains_key(
        k,
    ) && b.channels[k].medium == a.channels[k].medium by {}
}

/// An offer that could not be joined stands in no way of the next: an offer of a medium
/// that can be joined is taken, whatever medium was offered first.
pub proof fn lemma_next_offer_taken(
    a: BwuView,
    client: ClientView,
    endpoint_id: Seq<char>,
    first_medium: Medium,
    first: bwu::UpgradePathInfoView,
    first_outcomes: Outcomes,
    medium: Medium,
    info: bwu::UpgradePathInfoView,
    o: Outcomes,
)
    requires
        may_take(a, client, endpoint_id, first_medium),
        names(first, first_medium),
        opened_for(a, client, endpoint_id, first_medium, first, first_outcomes) is None,
        a.channels[endpoint_id].writes(first_outcomes.refusal) == Exception::Success,
        may_take_next(a, client, endpoint_id, medium),
        names(info, medium),
        opened_for(a, client, endpoint_id, medium, info, o) matches Some(channel)
            && introduces_well(channel, info, o),
        a.channels[endpoint_id].writes(o.last_write) == Exception::Success,
        frames::introduction_bytes(
            client.local_endpoint_id,
            known_before(a.channels[endpoint_id], client),
            info.supports_disabling_encryption == Some(true),
        ).len() <= u64::MAX,
    ensures
        ({
            let b = a.offered(client, endpoint_id, first, first_outcomes);
            let c = b.offered(client, endpoint_id, info, o);
            &&& !b.in_progress.contains(endpoint_id)
            &&& b.bwu_medium(endpoint_id) == Medium::UnknownMedium
            &&& c.in_progress.contains(endpoint_id)
            &&& c.bwu_medium(endpoint_id) == medium
            &&& c.channels[endpoint_id].medium == opened_for(
                a,
                client,
                endpoint_id,
                medium,
                info,
                o,
            )->0.medium
        }),
{
    lemma_unjoined(a, client, endpoint_id, first_medium, first, first_outcomes);
    let j = joined_by(a, client, endpoint_id, first_medium, first, None);
    let b = a.offered(client, endpoint_id, first, first_outcomes);
    assert(j.handlers.contains_key(medium)) by {
        assert(a.handlers.dom().contains(medium));
    }
    lemma_free_after_refusal(j, client, endpoint_id, first, first_outcomes.refusal, medium);
    lemma_refused_once(j, endpoint_id, first, first_outcomes.refusal, medium);
    assert(opened_for(b, client, endpoint_id, medium, info, o) == opened_for(
        a,
        client,
        endpoint_id,
        medium,
        info,
        o,
    ));
    assert(known_before(b.channels[endpoint_id], client) == known_before(
        a.channels[endpoint_id],
        client,
    ));
    lemma_offer_introduces(b, client, endpoint_id, medium, info, o);
}

/// An offer of a medium other than the one that the upgrade of the endpoint has is turned
/// down, and no handler is asked to join anything.
pub proof fn lemma_other_medium_turned_down(
    a: BwuView,
    client: ClientView,
    endpoint_id: Seq<char>,
    medium: Medium,
    info: bwu::UpgradePathInfoView,
    o: Outcomes,
)
    requires
        a.channels.contains_key(endpoint_id),
        client.endpoints.contains_key(endpoint_id) ==> !client.endpoints[endpoint_id].is_incoming,
        !a.in_progress.contains(endpoint_id),
        names(info, medium),
        a.bwu_medium(endpoint_id) != Medium::UnknownMedium,
        a.bwu_medium(endpoint_id) != medium,
        frames::failure_bytes(info).len() <= u64::MAX,
    ensures
        ({
            let b = a.offered(client, endpoint_id, info, o);
            &&& turned_down(
                a,
                b,
                endpoint_id,
                info,
                a.channels[endpoint_id].writes(o.refusal),
            )
            &&& a.handlers.contains_key(medium) ==> b.handlers[medium] == a.handlers[medium]
        }),
{
    lemma_turned_down(a, endpoint_id, info, o.refusal);
    let told = a.used(
        endpoint_id,
        ChannelEvent::Write(
            frames::failure_bytes(info),
            a.channels[endpoint_id].writes(o.refusal),
        ),
    );
    let other = endpoint_id.push('x');
    assert(other.len() != endpoint_id.len());
    lemma_medium_given_up(
        told,
        a.channels[endpoint_id].service_id,
        endpoint_id,
        a.bwu_medium(endpoint_id),
        other,
    );
    assert(told.bwu_medium(endpoint_id) == a.bwu_medium(endpoint_id));
}

/// A medium for which there is no handler is turned down.
pub proof fn lemma_unhandled_turned_down(
    a: BwuView,
    client: ClientView,
    endpoint_id: Seq<char>,
    medium: Medium,
    info: bwu::UpgradePathInfoView,
    o: Outcomes,
)
    requires
        a.channels.contains_key(endpoint_id),
        client.endpoints.contains_key(endpoint_id) ==> !client.endpoints[endpoint_id].is_incoming,
        !a.in_progress.contains(endpoint_id),
        names(info, medium),
        a.bwu_medium(endpoint_id) == Medium::UnknownMedium,
        !a.handlers.contains_key(medium),
        frames::failure_bytes(info).len() <= u64::MAX,
    ensures
        ({
            let b = a.offered(client, endpoint_id, info, o);
            &&& turned_down(
                a,
                b,
                endpoint_id,
                info,
                a.channels[endpoint_id].writes(o.refusal),
            )
            &&& b.handlers == a.handlers
        }),
{
    let chosen = a.with_bwu_medium(endpoint_id, medium);
    lemma_turned_down(chosen, endpoint_id, info, o.refusal);
    lemma_turned_down(a, endpoint_id, info, o.refusal);
}

/// Where the introduction could not be written, or was not confirmed though that was asked
/// for, the new channel is closed and let go, and the offer is turned down.
pub proof fn lemma_unintroduced_turned_down(
    a: BwuView,
    client: ClientView,
    endpoint_id: Seq<char>,
    medium: Medium,
    info: bwu::UpgradePathInfoView,
    o: Outcomes,
)
    requires
        may_take(a, client, endpoint_id, medium),
        names(info, medium),
        opened_for(a, client, endpoint_id, medium, info, o) matches Some(channel)
            && !introduces_well(channel, info, o),
        frames::failure_bytes(info).len() <= u64::MAX,
    ensures
        ({
            let b = a.offered(client, endpoint_id, info, o);
            let new = opened_for(a, client, endpoint_id, medium, info, o)->0;
            let ended = b.retired.last();
            let retired = BwuView { retired: a.retired.push(ended), ..a };
            &&& turned_down(
                retired,
                b,
                endpoint_id,
                info,
                a.channels[endpoint_id].writes(o.refusal),
            )
            &&& ended.medium == new.medium
            &&& ended.history.take(new.history.len() as int) == new.history
            &&& ended.history.len() == new.history.len() + (if new.writes(o.introduction)
                == Exception::Success {
                3int
            } else {
                2int
            })
            &&& ended.history.last() == ChannelEvent::Close
        }),
{
    lemma_may_take(a, client, endpoint_id, medium, info);
    let chosen = if a.bwu_medium(endpoint_id) is UnknownMedium {
        a.with_bwu_medium(endpoint_id, medium)
    } else {
        a
    };
    let new = opened_for(a, client, endpoint_id, medium, info, o)->0;
    let c = joined_by(a, client, endpoint_id, medium, info, Some(new));
    assert(chosen.channel_created(client, endpoint_id, info, o) == Some(new));
    let (d, none) = chosen.joined(client, endpoint_id, info, o);
    assert(none is None);
    let ended = d.retired.last();
    assert(d == c.retire(ended));
    assert(a.offered(client, endpoint_id, info, o) == d.refused(endpoint_id, info, o.refusal));
    lemma_turned_down(d, endpoint_id, info, o.refusal);
    assert(ended.history.take(new.history.len() as int) =~= new.history);
}

/// While some endpoint is connected over the local network, an offer of a hotspot or of a
/// Wi-Fi Direct group is turned down, and no handler is asked to join it.
pub proof fn lemma_wifi_lan_protected(
    a: BwuView,
    client: ClientView,
    endpoint_id: Seq<char>,
    connected: Seq<char>,
    medium: Medium,
    info: bwu::UpgradePathInfoView,
    o: Outcomes,
)
    requires
        a.channels.contains_key(connected),
        a.channels[connected].medium == Medium::WifiLan,
        a.channels.contains_key(endpoint_id),
        medium == Medium::WifiHotspot || medium == Medium::WifiDirect,
        names(info, medium),
        frames::failure_bytes(info).len() <= u64::MAX,
    ensures
        ({
            let b = a.offered(client, endpoint_id, info, o);
            &&& turned_down(
                a,
                b,
                endpoint_id,
                info,
                a.channels[endpoint_id].writes(o.refusal),
            )
            &&& a.bwu_medium(endpoint_id) == Medium::UnknownMedium ==> b.handlers == a.handlers
            &&& a.handlers.contains_key(medium) && a.bwu_medium(endpoint_id) != medium
                ==> b.handlers[medium] == a.handlers[medium]
        }),
{
    lemma_turned_down(a, endpoint_id, info, o.refusal);
    let told = a.used(
        endpoint_id,
        ChannelEvent::Write(
            frames::failure_bytes(info),
            a.channels[endpoint_id].writes(o.refusal),
        ),
    );
    let other = endpoint_id.push('x');
    assert(other.len() != endpoint_id.len());
    lemma_medium_given_up(
        told,
        a.channels[endpoint_id].service_id,
        endpoint_id,
        a.bwu_medium(endpoint_id),
        other,
    );
    assert(told.bwu_medium(endpoint_id) == a.bwu_medium(endpoint_id));
}

/// A path that names no medium that there is, or none at all, is turned down, and no handler
/// is asked to join anything.
pub proof fn lemma_unnamed_turned_down(
    a: BwuView,
    client: ClientView,
    endpoint_id: Seq<char>,
    info: bwu::UpgradePathInfoView,
    o: Outcomes,
)
    requires
        a.channels.contains_key(endpoint_id),
        client.endpoints.contains_key(endpoint_id) ==> !client.endpoints[endpoint_id].is_incoming,
        !a.in_progress.contains(endpoint_id),
        info.medium matches Some(number) ==> number < 1 || number == 10 || number > 13,
        frames::failure_bytes(info).len() <= u64::MAX,
    ensures
        ({
            let b = a.offered(client, endpoint_id, info, o);
            &&& turned_down(
                a,
                b,
                endpoint_id,
                info,
                a.channels[endpoint_id].writes(o.refusal),
            )
            &&& a.bwu_medium(endpoint_id) == Medium::UnknownMedium ==> b.handlers == a.handlers
        }),
{
    let chosen = if a.bwu_medium(endpoint_id) is UnknownMedium {
        a.with_bwu_medium(endpoint_id, Medium::UnknownMedium)
    } else {
        a
    };
    assert(model::info_medium(info) == Medium::UnknownMedium);
    lemma_turned_down(chosen, endpoint_id, info, o.refusal);
}

/// An endpoint without a channel can be told nothing: its offer changes nothing but the
/// medium that its upgrade has, and that only where it would have taken the offer.
pub proof fn lemma_unconnected_told_nothing(
    a: BwuView,
    client: ClientView,
    endpoint_id: Seq<char>,
    info: bwu::UpgradePathInfoView,
    o: Outcomes,
)
    requires
        !a.channels.contains_key(endpoint_id),
        !a.in_progress.contains(endpoint_id),
    ensures
        ({
            let b = a.offered(client, endpoint_id, info, o);
            &&& differs_in_mediums(a, b)
            &&& b.handlers == a.handlers
            &&& a.bwu_medium(endpoint_id) != Medium::UnknownMedium ==> b == a
            &&& a.refused(endpoint_id, info, o.refusal) == a
        }),
{
}

/// The side that was asked for the connection takes no offer: nothing changes.
pub proof fn lemma_advertiser_takes_nothing(
    a: BwuView,
    client: ClientView,
    endpoint_id: Seq<char>,
    medium: Medium,
    info: bwu::UpgradePathInfoView,
    o: Outcomes,
)
    requires
        client.endpoints.contains_key(endpoint_id),
        client.endpoints[endpoint_id].is_incoming,
        names(info, medium),
        medium == Medium::WifiHotspot || medium == Medium::WifiDirect ==> forall|k: Seq<char>|
            #[trigger]
            a.channels.contains_key(k) ==> a.channels[k].medium != Medium::WifiLan,
    ensures
        a.offered(client, endpoint_id, info, o) == a,
{
}

/// An offer in the middle of an upgrade closes both channels of the endpoint as
/// unfinished: the prior one, which is let go, and the one in use, whose writes are let
/// through first. Nothing is written, joined or offered.
pub proof fn lemma_offer_out_of_step(
    a: BwuView,
    client: ClientView,
    endpoint_id: Seq<char>,
    medium: Medium,
    info: bwu::UpgradePathInfoView,
    o: Outcomes,
)
    requires
        a.channels.contains_key(endpoint_id),
        client.endpoints.contains_key(endpoint_id) ==> !client.endpoints[endpoint_id].is_incoming,
        a.in_progress.contains(endpoint_id),
        names(info, medium),
        medium == Medium::WifiHotspot || medium == Medium::WifiDirect ==> forall|k: Seq<char>|
            #[trigger]
            a.channels.contains_key(k) ==> a.channels[k].medium != Medium::WifiLan,
    ensures
        ({
            let b = a.offered(client, endpoint_id, info, o);
            let n = a.channels[endpoint_id].history.len() as int;
            let history = b.channels[endpoint_id].history;
            &&& b.channels.dom() == a.channels.dom()
            &&& history.len() == n + 2
            &&& history.take(n) == a.channels[endpoint_id].history
            &&& history[n] == ChannelEvent::Resume
            &&& history[n + 1] == ChannelEvent::CloseWithReason(DisconnectionReason::Unfinished)
            &&& b.handlers == a.handlers
            &&& b.in_progress == a.in_progress
            &&& b.previous == a.previous.remove(endpoint_id)
            &&& if a.previous.contains_key(endpoint_id) {
                &&& b.retired.len() == a.retired.len() + 1
                &&& b.retired.take(a.retired.len() as int) == a.retired
                &&& b.retired.last().medium == a.previous[endpoint_id].medium
                &&& b.retired.last().history == a.previous[endpoint_id].history.push(
                    ChannelEvent::CloseWithReason(DisconnectionReason::Unfinished),
                )
            } else {
                b.retired == a.retired
            }
        }),
{
    let b = a.offered(client, endpoint_id, info, o);
    assert(b.channels.dom() =~= a.channels.dom());
    assert(b.channels[endpoint_id].history.take(a.channels[endpoint_id].history.len() as int)
        =~= a.channels[endpoint_id].history);
    if a.previous.contains_key(endpoint_id) {
        assert(b.retired.take(a.retired.len() as int) =~= a.retired);
    } else {
        assert(a.previous.remove(endpoint_id) =~= a.previous);
    }
}

} // verus!

//! The handshake of an upgrade, from the channel that a peer opens to the end of the prior
//! one, and what is left when an endpoint or everything ends.

use vstd::prelude::*;

use crate::bwu::channel;
use crate::bwu::channel::{ChannelEvent, ChannelView, DisconnectionReason};
use crate::bwu::client::ClientView;
use crate::bwu::exchange;
use crate::bwu::handler::BwuCall;
use crate::bwu::laws;
use crate::bwu::model;
use crate::bwu::model::{BwuView, Outcomes};
use crate::frame_laws;
use crate::frames;
use crate::frames::Exception;
use crate::mediums::Medium;
use crate::proto as pb;
use crate::proto::bandwidth_upgrade_negotiation_frame as bwu;
use crate::text;

verus! {

// ---------------------------------------------------------------------------
// Frames
// ---------------------------------------------------------------------------

/// What is read as an introduction: a valid frame that carries the event 4.
pub open spec fn introduction_in(data: Result<Seq<u8>, Exception>) -> Option<
    bwu::ClientIntroductionView,
> {
    match data {
        Ok(bytes) => match frames::parsed(bytes) {
            Ok(frame) => match frame.v1 {
                Some(v1) => match v1.bandwidth_upgrade_negotiation {
                    Some(step) => if step.event_type == Some(4i32) {
                        step.client_introduction
                    } else {
                        None
                    },
                    None => None,
                },
                None => None,
            },
            Err(_) => None,
        },
        Err(_) => None,
    }
}

/// A frame that carries no step of an upgrade changes nothing, and so does one of a step
/// that is not expected: the last write and the end of the prior channel without an
/// upgrade in progress, an introduction, a confirmation, and what no event stands for.
pub proof fn lemma_ignored(
    a: BwuView,
    client: ClientView,
    frame: pb::OfflineFrameView,
    v1: pb::V1FrameView,
    endpoint_id: Seq<char>,
    o: Outcomes,
)
    requires
        frame.v1 == Some(v1),
        frame.version != Some(1i32) || v1.type_ != Some(4i32)
            || v1.bandwidth_upgrade_negotiation is None || {
            let step = v1.bandwidth_upgrade_negotiation->0;
            ||| step.event_type is None
            ||| step.event_type == Some(0i32)
            ||| step.event_type == Some(4i32)
            ||| step.event_type == Some(6i32)
            ||| step.event_type == Some(7i32)
            ||| !(0 <= step.event_type->0 <= 7)
            ||| (step.event_type == Some(1i32) || step.event_type == Some(5i32))
                && step.upgrade_path_info is None
            ||| (step.event_type == Some(2i32) || step.event_type == Some(3i32))
                && !a.in_progress.contains(endpoint_id)
        },
    ensures
        a.received(client, frame, endpoint_id, o) == (a, client),
{
}

/// A frame of an endpoint that is connected is taken by the number of its event: 1 is an
/// offer, 5 a failure, 2 the last write of the peer, 3 the end of the prior channel. The
/// client is told of nothing but the last.
pub proof fn lemma_taken_by_number(
    a: BwuView,
    client: ClientView,
    frame: pb::OfflineFrameView,
    v1: pb::V1FrameView,
    step: pb::BandwidthUpgradeNegotiationFrameView,
    endpoint_id: Seq<char>,
    o: Outcomes,
)
    requires
        frame.version == Some(1i32),
        frame.v1 == Some(v1),
        v1.type_ == Some(4i32),
        v1.bandwidth_upgrade_negotiation == Some(step),
        client.endpoints.contains_key(endpoint_id),
        client.endpoints[endpoint_id].connected,
    ensures
        ({
            let (b, told) = a.received(client, frame, endpoint_id, o);
            &&& step.event_type == Some(1i32) && step.upgrade_path_info is Some ==> b == a.offered(
                client,
                endpoint_id,
                step.upgrade_path_info->0,
                o,
            )
            &&& step.event_type == Some(5i32) && step.upgrade_path_info is Some ==> b == a.failed(
                client,
                endpoint_id,
                step.upgrade_path_info->0,
                o.offers,
            )
            &&& step.event_type == Some(2i32) && a.in_progress.contains(endpoint_id) ==> b
                == a.last_write_seen(endpoint_id, o.safe_to_close)
            &&& step.event_type == Some(3i32) && a.in_progress.contains(endpoint_id) ==> (b, told)
                == a.closed_prior(client, endpoint_id, o)
            &&& step.event_type != Some(3i32) ==> told == client
        }),
{
}

/// Before an endpoint is connected an offer is turned down, and anything else is ignored.
pub proof fn lemma_before_connection(
    a: BwuView,
    client: ClientView,
    frame: pb::OfflineFrameView,
    v1: pb::V1FrameView,
    step: pb::BandwidthUpgradeNegotiationFrameView,
    endpoint_id: Seq<char>,
    o: Outcomes,
)
    requires
        frame.version == Some(1i32),
        frame.v1 == Some(v1),
        v1.type_ == Some(4i32),
        v1.bandwidth_upgrade_negotiation == Some(step),
        !client.endpoints.contains_key(endpoint_id) || !client.endpoints[endpoint_id].connected,
        step.upgrade_path_info is Some ==> frames::failure_bytes(step.upgrade_path_info->0).len()
            <= u64::MAX,
    ensures
        ({
            let (b, told) = a.received(client, frame, endpoint_id, o);
            &&& told == client
            &&& if step.event_type == Some(1i32) && step.upgrade_path_info is Some
                && a.channels.contains_key(endpoint_id) {
                exchange::turned_down(
                    a,
                    b,
                    endpoint_id,
                    step.upgrade_path_info->0,
                    a.channels[endpoint_id].writes(o.refusal),
                )
            } else {
                b == a
            }
        }),
{
    if step.upgrade_path_info is Some && a.channels.contains_key(endpoint_id) {
        exchange::lemma_turned_down(a, endpoint_id, step.upgrade_path_info->0, o.refusal);
    }
}

// ---------------------------------------------------------------------------
// A channel that a peer opens
// ---------------------------------------------------------------------------

/// A channel over which nobody introduces itself is read once, closed and let go, and
/// nothing else changes.
pub proof fn lemma_stranger_closed(
    a: BwuView,
    client: ClientView,
    channel: ChannelView,
    o: Outcomes,
)
    requires
        introduction_in(channel.reads(o.introduced)) is None,
    ensures
        ({
            let b = a.connected(client, channel, o);
            &&& b == BwuView { retired: b.retired, ..a }
            &&& b.retired == a.retired.push(b.retired.last())
            &&& b.retired.last().medium == channel.medium
            &&& b.retired.last().history == channel.history.push(
                ChannelEvent::Read(channel.reads(o.introduced)),
            ).push(ChannelEvent::Close)
        }),
{
    let b = a.connected(client, channel, o);
    assert(b.retired =~= a.retired.push(b.retired.last()));
}

/// An introduction is confirmed, on the channel on which it came and whoever it comes from.
/// A channel on which the confirmation cannot be written is closed and let go. One of an
/// endpoint without an upgrade in progress is let go, and not closed. Nothing else changes.
pub proof fn lemma_introduction_turned_away(
    a: BwuView,
    client: ClientView,
    channel: ChannelView,
    endpoint_id: Seq<char>,
    o: Outcomes,
)
    requires
        introduction_in(channel.reads(o.introduced)) matches Some(introduction)
            && introduction.endpoint_id == Some(endpoint_id),
        channel.writes(o.confirmation) != Exception::Success || !a.in_progress.contains(
            endpoint_id,
        ),
        frames::event_bytes(bwu::EventType::ClientIntroductionAck).len() <= u64::MAX,
    ensures
        ({
            let b = a.connected(client, channel, o);
            let gone = b.retired.last();
            let n = channel.history.len() as int;
            &&& b == BwuView { retired: b.retired, ..a }
            &&& b.retired == a.retired.push(gone)
            &&& gone.medium == channel.medium
            &&& gone.history.take(n) == channel.history
            &&& gone.history[n] == ChannelEvent::Read(channel.reads(o.introduced))
            &&& gone.history[n + 1] matches ChannelEvent::Write(bytes, written)
            &&& exchange::reads_event(bytes, 6)
            &&& written == channel.writes(o.confirmation)
            &&& if written != Exception::Success {
                gone.history.len() == n + 3 && gone.history[n + 2] == ChannelEvent::Close
            } else {
                gone.history.len() == n + 2
            }
        }),
{
    exchange::lemma_events_read();
    let b = a.connected(client, channel, o);
    let gone = b.retired.last();
    assert(b.retired =~= a.retired.push(gone));
    assert(gone.history.take(channel.history.len() as int) =~= channel.history);
}

/// An endpoint that introduces itself while its upgrade is in progress is confirmed, and
/// moved to the channel over which it came. That is given the local endpoint id and
/// paused. The last write goes out on the prior channel.
pub proof fn lemma_introduction_moves(
    a: BwuView,
    client: ClientView,
    channel: ChannelView,
    endpoint_id: Seq<char>,
    o: Outcomes,
)
    requires
        introduction_in(channel.reads(o.introduced)) matches Some(introduction)
            && introduction.endpoint_id == Some(endpoint_id),
        channel.writes(o.confirmation) == Exception::Success,
        a.in_progress.contains(endpoint_id),
        a.channels.contains_key(endpoint_id),
        !a.early.contains(endpoint_id),
        a.channels[endpoint_id].writes(o.last_write) == Exception::Success,
        frames::event_bytes(bwu::EventType::ClientIntroductionAck).len() <= u64::MAX,
        frames::event_bytes(bwu::EventType::LastWriteToPriorChannel).len() <= u64::MAX,
    ensures
        ({
            let b = a.connected(client, channel, o);
            let next = b.channels[endpoint_id];
            let prior = b.previous[endpoint_id];
            let n = channel.history.len() as int;
            let k = a.channels[endpoint_id].history.len() as int;
            &&& b.channels.dom() == a.channels.dom()
            &&& next.medium == channel.medium
            &&& next.history.len() == n + 4
            &&& next.history.take(n) == channel.history
            &&& next.history[n] == ChannelEvent::Read(channel.reads(o.introduced))
            &&& next.history[n + 1] matches ChannelEvent::Write(ack, confirmed)
            &&& exchange::reads_event(ack, 6)
            &&& next.history[n + 2] == ChannelEvent::SetLocalEndpointId(client.local_endpoint_id)
            &&& next.history[n + 3] == ChannelEvent::Pause
            &&& b.previous.contains_key(endpoint_id)
            &&& prior.medium == a.channels[endpoint_id].medium
            &&& prior.history.len() == k + 1
            &&& prior.history.take(k) == a.channels[endpoint_id].history
            &&& prior.history[k] matches ChannelEvent::Write(last, written)
            &&& exchange::reads_event(last, 2)
            &&& b.in_progress == a.in_progress
            &&& b.handlers == a.handlers
            &&& b.early == a.early
            &&& b.medium == a.medium
            &&& b.mediums == a.mediums
            &&& b.alarms == a.alarms
            &&& b.retry_delays == a.retry_delays
            &&& b.dropped == a.dropped
            &&& b.retired == (if a.previous.contains_key(endpoint_id) {
                a.retired.push(a.previous[endpoint_id])
            } else {
                a.retired
            })
        }),
{
    exchange::lemma_events_read();
    let b = a.connected(client, channel, o);
    let confirmed = channel.after(ChannelEvent::Read(channel.reads(o.introduced))).after(
        ChannelEvent::Write(
            frames::event_bytes(bwu::EventType::ClientIntroductionAck),
            channel.writes(o.confirmation),
        ),
    );
    assert(b == a.moved(client, endpoint_id, confirmed, o));
    laws::lemma_moved_in_order(a, client, endpoint_id, confirmed, o);
    assert(b.channels.dom() =~= a.channels.dom());
    assert(b.channels[endpoint_id].history.take(channel.history.len() as int) =~= channel.history);
    assert(b.previous[endpoint_id].history.take(a.channels[endpoint_id].history.len() as int)
        =~= a.channels[endpoint_id].history);
}

/// An introduction without an id is taken as one of an empty id: without an upgrade of that
/// in progress, the channel is confirmed and let go.
pub proof fn lemma_nameless_turned_away(
    a: BwuView,
    client: ClientView,
    channel: ChannelView,
    o: Outcomes,
)
    requires
        introduction_in(channel.reads(o.introduced)) matches Some(introduction)
            && introduction.endpoint_id is None,
        !a.in_progress.contains(Seq::empty()),
    ensures
        ({
            let b = a.connected(client, channel, o);
            &&& b == BwuView { retired: b.retired, ..a }
            &&& b.retired == a.retired.push(b.retired.last())
            &&& b.retired.last().medium == channel.medium
        }),
{
    let b = a.connected(client, channel, o);
    assert(b.retired =~= a.retired.push(b.retired.last()));
}

// ---------------------------------------------------------------------------
// The prior channel
// ---------------------------------------------------------------------------

/// The last write of the peer is answered, on the prior channel, by telling that it can be
/// closed. If that went out the prior channel stays open; if not it is closed and let go.
/// Where there is no prior channel yet, nothing is written, and the last write is kept in
/// mind. Nothing else changes.
pub proof fn lemma_last_write_answered(a: BwuView, endpoint_id: Seq<char>, write: Exception)
    requires
        frames::event_bytes(bwu::EventType::SafeToClosePriorChannel).len() <= u64::MAX,
    ensures
        ({
            let b = a.last_write_seen(endpoint_id, write);
            if a.previous.contains_key(endpoint_id) {
                let before = a.previous[endpoint_id];
                let written = before.writes(write);
                let after = if written == Exception::Success {
                    b.previous[endpoint_id]
                } else {
                    b.retired.last()
                };
                let n = before.history.len() as int;
                &&& after.medium == before.medium
                &&& after.history.take(n) == before.history
                &&& after.history[n] matches ChannelEvent::Write(bytes, outcome)
                &&& outcome == written
                &&& exchange::reads_event(bytes, 3)
                &&& if written == Exception::Success {
                    &&& after.history.len() == n + 1
                    &&& b == BwuView { previous: a.previous.insert(endpoint_id, after), ..a }
                } else {
                    &&& after.history.len() == n + 2
                    &&& after.history[n + 1] == ChannelEvent::CloseWithReason(
                        DisconnectionReason::IoError,
                    )
                    &&& b == BwuView {
                        previous: a.previous.remove(endpoint_id),
                        retired: a.retired.push(after),
                        ..a
                    }
                }
            } else {
                b == BwuView { early: a.early.insert(endpoint_id), ..a }
            }
        }),
{
    exchange::lemma_events_read();
    let b = a.last_write_seen(endpoint_id, write);
    if a.previous.contains_key(endpoint_id) {
        let before = a.previous[endpoint_id];
        let written = before.writes(write);
        let told = before.after(
            ChannelEvent::Write(
                frames::event_bytes(bwu::EventType::SafeToClosePriorChannel),
                written,
            ),
        );
        if written.ok() {
            assert(b.previous[endpoint_id].history.take(before.history.len() as int)
                =~= before.history);
        } else {
            assert(b.retired.last().history.take(before.history.len() as int) =~= before.history);
            assert(a.previous.insert(endpoint_id, told).remove(endpoint_id) =~= a.previous.remove(
                endpoint_id,
            ));
        }
    }
}

/// When the prior channel can be closed, a disconnection that asks for nothing goes out on
/// it in plaintext, it is read once, and it is closed as upgraded, in that order and
/// whatever comes of it. After that the channel in use goes on, the client is told of its
/// medium, and the upgrade is over. Without a channel in use, the upgrade stays in progress
/// and the client is not told.
pub proof fn lemma_prior_closed(
    a: BwuView,
    client: ClientView,
    endpoint_id: Seq<char>,
    o: Outcomes,
)
    requires
        a.previous.contains_key(endpoint_id),
        frames::disconnection_bytes(false, false).len() <= u64::MAX,
    ensures
        ({
            let (b, told) = a.closed_prior(client, endpoint_id, o);
            let before = a.previous[endpoint_id];
            let ended = b.retired.last();
            let n = before.history.len() as int;
            &&& b.retired == a.retired.push(ended)
            &&& b.previous == a.previous.remove(endpoint_id)
            &&& ended.medium == before.medium
            &&& ended.history.len() == n + 4
            &&& ended.history.take(n) == before.history
            &&& ended.history[n] == ChannelEvent::DisableEncryption
            &&& ended.history[n + 1] matches ChannelEvent::Write(bytes, outcome)
            &&& frame_laws::content(bytes, 6) matches Some(v1)
            &&& v1.disconnection matches Some(disconnection)
            &&& disconnection.request_safe_to_disconnect == Some(false)
            &&& disconnection.ack_safe_to_disconnect == Some(false)
            &&& ended.history[n + 2] == ChannelEvent::Read(before.reads(o.drain))
            &&& ended.history[n + 3] == ChannelEvent::CloseWithReason(DisconnectionReason::Upgraded)
            &&& b.handlers == a.handlers
            &&& b.mediums == a.mediums
            &&& b.medium == a.medium
            &&& b.early == a.early
            &&& b.alarms == a.alarms
            &&& if a.channels.contains_key(endpoint_id) {
                &&& b.in_progress == a.in_progress.remove(endpoint_id)
                &&& b.channels.dom() == a.channels.dom()
                &&& b.channels[endpoint_id].history == a.channels[endpoint_id].history.push(
                    ChannelEvent::Resume,
                )
                &&& told.bandwidth_changed == client.bandwidth_changed.push(
                    (endpoint_id, a.channels[endpoint_id].medium),
                )
                &&& told.endpoints == client.endpoints
            } else {
                b.in_progress == a.in_progress && b.channels == a.channels && told == client
            }
        }),
{
    frame_laws::lemma_disconnection_read(false, false);
    let (b, told) = a.closed_prior(client, endpoint_id, o);
    assert(b.retired.last().history.take(a.previous[endpoint_id].history.len() as int)
        =~= a.previous[endpoint_id].history);
    if a.channels.contains_key(endpoint_id) {
        assert(b.channels.dom() =~= a.channels.dom());
    }
}

// ---------------------------------------------------------------------------
// Ending
// ---------------------------------------------------------------------------

/// When an endpoint disconnects, the handler of its medium is told once, its prior channel
/// is closed for the reason of the shutdown and let go, and its upgrade is forgotten. Its
/// medium is given up, unless it serves other endpoints. The channels stay as they are, and
/// so does the client.
pub proof fn lemma_endpoint_ended(
    a: BwuView,
    client: ClientView,
    plain: Seq<char>,
    endpoint_id: Seq<char>,
    medium: Medium,
)
    requires
        a.bwu_medium(endpoint_id) == medium,
        medium != Medium::UnknownMedium,
        a.handlers.contains_key(medium),
    ensures
        ({
            let b = a.disconnected(client, plain, endpoint_id);
            let told = a.handlers[medium].calls.push(BwuCall::Disconnect { client, endpoint_id });
            let several = a.config.support_multiple_bwu_mediums;
            let shared = !several && a.channels.dom().len() > 1;
            &&& b.channels == a.channels
            &&& b.in_progress == a.in_progress.remove(endpoint_id)
            &&& b.early == a.early.remove(endpoint_id)
            &&& b.alarms == a.alarms.remove(endpoint_id)
            &&& b.retry_delays == a.retry_delays.remove(endpoint_id)
            &&& b.previous == a.previous.remove(endpoint_id)
            &&& b.retired == (if a.previous.contains_key(endpoint_id) {
                a.retired.push(
                    a.previous[endpoint_id].after(
                        ChannelEvent::CloseWithReason(DisconnectionReason::Shutdown),
                    ),
                )
            } else {
                a.retired
            })
            &&& b.handlers.dom() == a.handlers.dom()
            &&& forall|m: Medium| #[trigger]
                a.handlers.contains_key(m) && m != medium ==> b.handlers[m] == a.handlers[m]
            &&& b.handlers[medium].calls == (if shared {
                told
            } else if !several {
                told.push(BwuCall::RevertAll)
            } else if text::ends_in(plain, "_UPGRADE"@) {
                told.push(BwuCall::RevertEndpoint { upgrade_service_id: plain, endpoint_id })
            } else if medium == Medium::WifiHotspot || medium == Medium::WifiDirect {
                told.push(BwuCall::RevertResponder { service_id: plain })
            } else {
                told
            })
            &&& b.bwu_medium(endpoint_id) == (if shared {
                medium
            } else {
                Medium::UnknownMedium
            })
        }),
{
    let call = BwuCall::Disconnect { client, endpoint_id };
    let c = a.called(medium, call);
    let d = c.drop_previous(endpoint_id, DisconnectionReason::Shutdown);
    let e = BwuView {
        in_progress: d.in_progress.remove(endpoint_id),
        early: d.early.remove(endpoint_id),
        retry_delays: d.retry_delays.remove(endpoint_id),
        alarms: d.alarms.remove(endpoint_id),
        ..d
    };
    assert(c.handlers.dom() =~= a.handlers.dom());
    if !a.previous.contains_key(endpoint_id) {
        assert(a.previous.remove(endpoint_id) =~= a.previous);
    }
    let other = endpoint_id.push('x');
    assert(other.len() != endpoint_id.len());
    exchange::lemma_medium_given_up(e, plain, endpoint_id, medium, other);
}

/// An endpoint whose upgrade has no medium, or one without a handler, disconnects without
/// any handler being called.
pub proof fn lemma_endpoint_ended_quietly(
    a: BwuView,
    client: ClientView,
    plain: Seq<char>,
    endpoint_id: Seq<char>,
)
    requires
        a.bwu_medium(endpoint_id) == Medium::UnknownMedium || !a.handlers.contains_key(
            a.bwu_medium(endpoint_id),
        ),
    ensures
        ({
            let b = a.disconnected(client, plain, endpoint_id);
            &&& b.handlers == a.handlers
            &&& b.channels == a.channels
            &&& b.in_progress == a.in_progress.remove(endpoint_id)
            &&& b.previous == a.previous.remove(endpoint_id)
        }),
{
    if !a.previous.contains_key(endpoint_id) {
        assert(a.previous.remove(endpoint_id) =~= a.previous);
    }
}

/// To shut everything down leaves the channels in use and the mediums of upgrades as they
/// are, and lets each prior channel go once, in any order.
pub proof fn lemma_all_ended(a: BwuView, order: Seq<Seq<char>>)
    requires
        model::lists_channels(order, a.previous),
    ensures
        ({
            let b = a.shut_down(order);
            &&& b.config == a.config
            &&& b.channels == a.channels
            &&& b.medium == a.medium
            &&& b.mediums == a.mediums
            &&& b.handovers == a.handovers
            &&& b.dropped == a.dropped
            &&& b.in_progress == Set::<Seq<char>>::empty()
            &&& b.previous == Map::<Seq<char>, ChannelView>::empty()
            &&& b.early == Set::<Seq<char>>::empty()
            &&& b.alarms == Map::<Seq<char>, u64>::empty()
            &&& b.retry_delays == Map::<Seq<char>, u64>::empty()
            &&& b.retired.len() == a.retired.len() + order.len()
            &&& forall|i: int|
                0 <= i < a.retired.len() ==> #[trigger] b.retired[i] == a.retired[i]
            &&& forall|i: int|
                0 <= i < order.len() ==> a.previous.contains_key(#[trigger] order[i])
                    && b.retired[a.retired.len() + i] == a.previous[order[i]]
        }),
{
    assert forall|i: int| 0 <= i < order.len() implies a.previous.contains_key(
        #[trigger] order[i],
    ) by {
        assert(order.contains(order[i]));
    }
}

/// To connect an endpoint, or to forget its channel, changes the channels and what was
/// dropped of them, and nothing else. Without a channel there is nothing to drop.
pub proof fn lemma_channels_changed(a: BwuView, endpoint_id: Seq<char>, channel: ChannelView)
    ensures
        ({
            let had = a.channels.contains_key(endpoint_id);
            let dropped = if had {
                a.dropped.push(a.channels[endpoint_id])
            } else {
                a.dropped
            };
            &&& a.registered(endpoint_id, channel) == BwuView {
                channels: a.channels.insert(endpoint_id, channel),
                dropped,
                ..a
            }
            &&& a.unregistered(endpoint_id) == BwuView {
                channels: a.channels.remove(endpoint_id),
                dropped,
                ..a
            }
        }),
{
}

// ---------------------------------------------------------------------------
// Both sides
// ---------------------------------------------------------------------------

/// The bytes of the last thing that was done to a channel, if that was a write.
pub open spec fn last_written(channel: ChannelView) -> Seq<u8> {
    channel.history.last()->Write_0
}

/// The frame that the other side reads.
pub open spec fn frame_in(bytes: Seq<u8>) -> pb::OfflineFrameView {
    frames::parsed(bytes)->Ok_0
}

/// An upgrade that goes well on both sides.
///
/// One side has offered a medium, and its upgrade is in progress. The other side takes the
/// offer, opens a channel and introduces itself. The first side reads what was written
/// there, over the channel that it was handed. It finds the endpoint of the other side by
/// the id that it reads, and moves to the new channel, as the other side has done. Each
/// side then reads the last write of the other on the prior channel, and answers it, and
/// each reads that answer. In the end both have the new channel, which is not paused, no
/// prior channel and no upgrade in progress, and both clients were told of the new medium.
///
/// `eo` is what the first side calls the other, and `ef` what the other calls the first.
pub proof fn lemma_both_sides(
    first: BwuView,
    first_client: ClientView,
    second: BwuView,
    second_client: ClientView,
    ef: Seq<char>,
    eo: Seq<char>,
    medium: Medium,
    info: bwu::UpgradePathInfoView,
    accepted: ChannelView,
    o: Outcomes,
    p: Outcomes,
    o2: Outcomes,
    p2: Outcomes,
    o3: Outcomes,
    p3: Outcomes,
)
    requires
        eo == second_client.local_endpoint_id,
        first_client.endpoints.contains_key(eo) && first_client.endpoints[eo].connected,
        second_client.endpoints.contains_key(ef) && second_client.endpoints[ef].connected,
        first.channels.contains_key(eo),
        first.in_progress.contains(eo),
        !first.early.contains(eo),
        exchange::may_take(second, second_client, ef, medium),
        exchange::names(info, medium),
        exchange::opened_for(second, second_client, ef, medium, info, p) matches Some(opened)
            && exchange::introduces_well(opened, info, p) && opened.medium == medium,
        second.channels[ef].writes(p.last_write) == Exception::Success,
        second.channels[ef].writes(p2.safe_to_close) == Exception::Success,
        frames::introduction_bytes(
            second_client.local_endpoint_id,
            exchange::known_before(second.channels[ef], second_client),
            info.supports_disabling_encryption == Some(true),
        ).len() <= u64::MAX,
        frames::event_bytes(bwu::EventType::LastWriteToPriorChannel).len() <= u64::MAX,
        frames::event_bytes(bwu::EventType::SafeToClosePriorChannel).len() <= u64::MAX,
        frames::event_bytes(bwu::EventType::ClientIntroductionAck).len() <= u64::MAX,
        frames::disconnection_bytes(false, false).len() <= u64::MAX,
        accepted.medium == medium,
        accepted.writes(o.confirmation) == Exception::Success,
        first.channels[eo].writes(o.last_write) == Exception::Success,
        first.channels[eo].writes(o2.safe_to_close) == Exception::Success,
        // What the first side reads is what the second has written on its new channel.
        ({
            let second1 = second.offered(second_client, ef, info, p);
            let n = exchange::opened_for(
                second,
                second_client,
                ef,
                medium,
                info,
                p,
            )->0.history.len() as int;
            accepted.reads(o.introduced) == Ok::<Seq<u8>, Exception>(
                second1.channels[ef].history[n]->Write_0,
            )
        }),
    ensures
        ({
            let second1 = second.offered(second_client, ef, info, p);
            let first1 = first.connected(first_client, accepted, o);
            let first2 = first1.received(
                first_client,
                frame_in(last_written(second1.previous[ef])),
                eo,
                o2,
            ).0;
            let second2 = second1.received(
                second_client,
                frame_in(last_written(first1.previous[eo])),
                ef,
                p2,
            ).0;
            let (first3, first_told) = first2.received(
                first_client,
                frame_in(last_written(second2.previous[ef])),
                eo,
                o3,
            );
            let (second3, second_told) = second2.received(
                second_client,
                frame_in(last_written(first2.previous[eo])),
                ef,
                p3,
            );
            &&& first3.channels[eo].medium == medium
            &&& second3.channels[ef].medium == medium
            &&& !channel::was_paused(first3.channels[eo].history)
            &&& !channel::was_paused(second3.channels[ef].history)
            &&& !first3.previous.contains_key(eo)
            &&& !second3.previous.contains_key(ef)
            &&& !first3.in_progress.contains(eo)
            &&& !second3.in_progress.contains(ef)
            &&& first_told.bandwidth_changed == first_client.bandwidth_changed.push((eo, medium))
            &&& second_told.bandwidth_changed == second_client.bandwidth_changed.push((ef, medium))
        }),
{
    let second1 = second.offered(second_client, ef, info, p);
    let opened = exchange::opened_for(second, second_client, ef, medium, info, p)->0;
    let n = opened.history.len() as int;
    lemma_second_moves(second, second_client, ef, medium, info, p);
    let written = second1.channels[ef].history[n]->Write_0;
    assert(introduction_in(accepted.reads(o.introduced)) matches Some(introduction)
        && introduction.endpoint_id == Some(eo));
    let first1 = first.connected(first_client, accepted, o);
    lemma_introduction_moves(first, first_client, accepted, eo, o);
    lemma_moved_replies(first, first_client, accepted, eo, o);
    lemma_side_ends(
        first1,
        first_client,
        eo,
        last_written(second1.previous[ef]),
        o2,
    );
    lemma_side_ends(
        second1,
        second_client,
        ef,
        last_written(first1.previous[eo]),
        p2,
    );
    let first2 = first1.received(
        first_client,
        frame_in(last_written(second1.previous[ef])),
        eo,
        o2,
    ).0;
    let second2 = second1.received(
        second_client,
        frame_in(last_written(first1.previous[eo])),
        ef,
        p2,
    ).0;
    lemma_side_closes(first2, first_client, eo, last_written(second2.previous[ef]), o3);
    lemma_side_closes(second2, second_client, ef, last_written(first2.previous[eo]), p3);
}

/// The side that takes an offer, once it has moved.
proof fn lemma_second_moves(
    a: BwuView,
    client: ClientView,
    endpoint_id: Seq<char>,
    medium: Medium,
    info: bwu::UpgradePathInfoView,
    o: Outcomes,
)
    requires
        exchange::may_take(a, client, endpoint_id, medium),
        exchange::names(info, medium),
        exchange::opened_for(a, client, endpoint_id, medium, info, o) matches Some(opened)
            && exchange::introduces_well(opened, info, o) && opened.medium == medium,
        a.channels[endpoint_id].writes(o.last_write) == Exception::Success,
        frames::introduction_bytes(
            client.local_endpoint_id,
            exchange::known_before(a.channels[endpoint_id], client),
            info.supports_disabling_encryption == Some(true),
        ).len() <= u64::MAX,
        frames::event_bytes(bwu::EventType::LastWriteToPriorChannel).len() <= u64::MAX,
    ensures
        ({
            let b = a.offered(client, endpoint_id, info, o);
            let n = exchange::opened_for(
                a,
                client,
                endpoint_id,
                medium,
                info,
                o,
            )->0.history.len() as int;
            &&& b.channels.contains_key(endpoint_id)
            &&& b.channels[endpoint_id].medium == medium
            &&& b.in_progress.contains(endpoint_id)
            &&& b.previous.contains_key(endpoint_id)
            &&& b.previous[endpoint_id].replies == a.channels[endpoint_id].replies
            &&& b.previous[endpoint_id].history.last() is Write
            &&& exchange::reads_event(last_written(b.previous[endpoint_id]), 2)
            &&& b.channels[endpoint_id].history[n] is Write
            &&& exchange::reads_introduction(
                b.channels[endpoint_id].history[n]->Write_0,
                client.local_endpoint_id,
                exchange::known_before(a.channels[endpoint_id], client),
                info.supports_disabling_encryption == Some(true),
            )
        }),
{
    exchange::lemma_events_read();
    exchange::lemma_offer_introduces(a, client, endpoint_id, medium, info, o);
    exchange::lemma_offer_parks(a, client, endpoint_id, medium, info, o);
}

/// The side that offered, once it has moved.
proof fn lemma_moved_replies(
    a: BwuView,
    client: ClientView,
    channel: ChannelView,
    endpoint_id: Seq<char>,
    o: Outcomes,
)
    requires
        introduction_in(channel.reads(o.introduced)) matches Some(introduction)
            && introduction.endpoint_id == Some(endpoint_id),
        channel.writes(o.confirmation) == Exception::Success,
        a.in_progress.contains(endpoint_id),
        a.channels.contains_key(endpoint_id),
        !a.early.contains(endpoint_id),
        a.channels[endpoint_id].writes(o.last_write) == Exception::Success,
    ensures
        a.connected(client, channel, o).previous[endpoint_id].replies
            == a.channels[endpoint_id].replies,
        a.connected(client, channel, o).channels.contains_key(endpoint_id),
{
}

/// A side that reads the last write of the other answers it.
proof fn lemma_side_ends(
    a: BwuView,
    client: ClientView,
    endpoint_id: Seq<char>,
    bytes: Seq<u8>,
    o: Outcomes,
)
    requires
        client.endpoints.contains_key(endpoint_id) && client.endpoints[endpoint_id].connected,
        exchange::reads_event(bytes, 2),
        a.in_progress.contains(endpoint_id),
        a.previous.contains_key(endpoint_id),
        a.previous[endpoint_id].writes(o.safe_to_close) == Exception::Success,
        frames::event_bytes(bwu::EventType::SafeToClosePriorChannel).len() <= u64::MAX,
    ensures
        ({
            let b = a.received(client, frame_in(bytes), endpoint_id, o).0;
            &&& b.channels == a.channels
            &&& b.in_progress == a.in_progress
            &&& b.previous.contains_key(endpoint_id)
            &&& b.previous[endpoint_id].history.last() is Write
            &&& exchange::reads_event(last_written(b.previous[endpoint_id]), 3)
        }),
{
    let frame = frame_in(bytes);
    lemma_taken_by_number(
        a,
        client,
        frame,
        frame.v1->0,
        frame.v1->0.bandwidth_upgrade_negotiation->0,
        endpoint_id,
        o,
    );
    lemma_last_write_answered(a, endpoint_id, o.safe_to_close);
}

/// A side that reads that the prior channel can be closed ends the upgrade.
proof fn lemma_side_closes(
    a: BwuView,
    client: ClientView,
    endpoint_id: Seq<char>,
    bytes: Seq<u8>,
    o: Outcomes,
)
    requires
        client.endpoints.contains_key(endpoint_id) && client.endpoints[endpoint_id].connected,
        exchange::reads_event(bytes, 3),
        a.in_progress.contains(endpoint_id),
        a.previous.contains_key(endpoint_id),
        a.channels.contains_key(endpoint_id),
        frames::disconnection_bytes(false, false).len() <= u64::MAX,
    ensures
        ({
            let (b, told) = a.received(client, frame_in(bytes), endpoint_id, o);
            &&& b.channels[endpoint_id].medium == a.channels[endpoint_id].medium
            &&& !channel::was_paused(b.channels[endpoint_id].history)
            &&& !b.previous.contains_key(endpoint_id)
            &&& !b.in_progress.contains(endpoint_id)
            &&& told.bandwidth_changed == client.bandwidth_changed.push(
                (endpoint_id, a.channels[endpoint_id].medium),
            )
        }),
{
    let frame = frame_in(bytes);
    lemma_taken_by_number(
        a,
        client,
        frame,
        frame.v1->0,
        frame.v1->0.bandwidth_upgrade_negotiation->0,
        endpoint_id,
        o,
    );
    lemma_prior_closed(a, client, endpoint_id, o);
    let (b, told) = a.closed_prior(client, endpoint_id, o);
    assert(b.channels[endpoint_id].history.last() is Resume);
}

} // verus!

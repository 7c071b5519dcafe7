//! What holds of the manager of upgrades, whatever its channels and handlers do.

use vstd::prelude::*;

use crate::bwu::channel;
use crate::bwu::channel::{ChannelEvent, ChannelView, DisconnectionReason};
use crate::bwu::channel_manager::Handover;
use crate::bwu::client::ClientView;
use crate::bwu::handler::{BwuCall, HandlerView};
use crate::bwu::model;
use crate::bwu::model::{BwuView, Offer, Outcomes};
use crate::frames;
use crate::frames::Exception;
use crate::mediums::Medium;
use crate::proto as pb;
use crate::proto::bandwidth_upgrade_negotiation_frame as bwu;

verus! {

// ---------------------------------------------------------------------------
// What every step keeps
// ---------------------------------------------------------------------------

/// Two maps agree at a key.
pub open spec fn same_at<V>(a: Map<Seq<char>, V>, b: Map<Seq<char>, V>, k: Seq<char>) -> bool {
    a.contains_key(k) == b.contains_key(k) && (a.contains_key(k) ==> a[k] == b[k])
}

/// `b` goes on where `a` ends.
pub open spec fn grows<T>(a: Seq<T>, b: Seq<T>) -> bool {
    a.len() <= b.len() && b.take(a.len() as int) == a
}

/// A handler is the same but for more calls.
pub open spec fn goes_on(a: HandlerView, b: HandlerView) -> bool {
    grows(a.calls, b.calls) && b.replies == a.replies && b.sound == a.sound
}

/// Everything that is held for an endpoint is the same.
pub open spec fn untouched(a: BwuView, b: BwuView, endpoint_id: Seq<char>) -> bool {
    &&& same_at(a.channels, b.channels, endpoint_id)
    &&& same_at(a.mediums, b.mediums, endpoint_id)
    &&& same_at(a.previous, b.previous, endpoint_id)
    &&& same_at(a.retry_delays, b.retry_delays, endpoint_id)
    &&& same_at(a.alarms, b.alarms, endpoint_id)
    &&& a.in_progress.contains(endpoint_id) == b.in_progress.contains(endpoint_id)
    &&& a.early.contains(endpoint_id) == b.early.contains(endpoint_id)
}

/// A retry that waits has the delay that was computed last, and no delay is shorter than
/// the first one or longer than the limit, if the first one is within the limit.
pub open spec fn retries_sound(v: BwuView) -> bool {
    &&& forall|k: Seq<char>| #[trigger]
        v.alarms.contains_key(k) ==> v.retry_delays.contains_key(k) && v.alarms[k]
            == v.retry_delays[k]
    &&& v.config.initial_delay() <= v.config.max_delay() ==> forall|k: Seq<char>| #[trigger]
        v.retry_delays.contains_key(k) ==> v.config.initial_delay() <= v.retry_delays[k]
            <= v.config.max_delay()
}

/// What a step on behalf of `endpoint_id` keeps: the configuration; the handlers, whose
/// calls are only added to; the channels that were let go and the handovers, which are
/// only added to; the channels that were dropped; everything that is held for any other endpoint; and that retries are sound.
pub open spec fn keeps(a: BwuView, b: BwuView, endpoint_id: Seq<char>) -> bool {
    &&& b.config == a.config
    &&& b.handlers.dom() == a.handlers.dom()
    &&& forall|m: Medium| #[trigger]
        a.handlers.contains_key(m) ==> goes_on(a.handlers[m], b.handlers[m])
    &&& grows(a.retired, b.retired)
    &&& b.dropped == a.dropped
    &&& grows(a.handovers, b.handovers)
    &&& forall|other: Seq<char>| other != endpoint_id ==> #[trigger] untouched(a, b, other)
    &&& retries_sound(a) ==> retries_sound(b)
}

proof fn lemma_grows_transitive<T>(a: Seq<T>, b: Seq<T>, c: Seq<T>)
    requires
        grows(a, b),
        grows(b, c),
    ensures
        grows(a, c),
{
    assert(c.take(a.len() as int) =~= c.take(b.len() as int).take(a.len() as int));
}

proof fn lemma_grows_push<T>(a: Seq<T>, x: T)
    ensures
        grows(a, a),
        grows(a, a.push(x)),
{
    assert(a.take(a.len() as int) =~= a);
    assert(a.push(x).take(a.len() as int) =~= a);
}

proof fn lemma_keeps_reflexive(a: BwuView, endpoint_id: Seq<char>)
    ensures
        keeps(a, a, endpoint_id),
{
    assert forall|m: Medium| #[trigger] a.handlers.contains_key(m) implies goes_on(
        a.handlers[m],
        a.handlers[m],
    ) by {
        lemma_grows_push(a.handlers[m].calls, BwuCall::RevertAll);
    }
    assert(a.retired.take(a.retired.len() as int) =~= a.retired);
    assert(a.handovers.take(a.handovers.len() as int) =~= a.handovers);
}

proof fn lemma_keeps_transitive(a: BwuView, b: BwuView, c: BwuView, endpoint_id: Seq<char>)
    requires
        keeps(a, b, endpoint_id),
        keeps(b, c, endpoint_id),
    ensures
        keeps(a, c, endpoint_id),
{
    assert forall|m: Medium| #[trigger] a.handlers.contains_key(m) implies goes_on(
        a.handlers[m],
        c.handlers[m],
    ) by {
        assert(a.handlers.dom().contains(m));
        assert(b.handlers.dom().contains(m));
        assert(b.handlers.contains_key(m));
        lemma_grows_transitive(a.handlers[m].calls, b.handlers[m].calls, c.handlers[m].calls);
    }
    lemma_grows_transitive(a.retired, b.retired, c.retired);
    lemma_grows_transitive(a.handovers, b.handovers, c.handovers);
    assert forall|other: Seq<char>| other != endpoint_id implies #[trigger] untouched(
        a,
        c,
        other,
    ) by {
        assert(untouched(a, b, other));
        assert(untouched(b, c, other));
    }
}

/// A change to the parts of one endpoint alone.
proof fn lemma_keeps_local(a: BwuView, b: BwuView, endpoint_id: Seq<char>)
    requires
        b.config == a.config,
        b.handlers == a.handlers,
        b.retired == a.retired,
        b.handovers == a.handovers,
        b.dropped == a.dropped,
        forall|other: Seq<char>| other != endpoint_id ==> #[trigger] untouched(a, b, other),
        retries_sound(a) ==> retries_sound(b),
    ensures
        keeps(a, b, endpoint_id),
{
    lemma_keeps_reflexive(a, endpoint_id);
}

proof fn lemma_keeps_used(a: BwuView, endpoint_id: Seq<char>, event: ChannelEvent)
    ensures
        keeps(a, a.used(endpoint_id, event), endpoint_id),
{
    lemma_keeps_local(a, a.used(endpoint_id, event), endpoint_id);
}

proof fn lemma_keeps_called(a: BwuView, endpoint_id: Seq<char>, medium: Medium, call: BwuCall)
    requires
        a.handlers.contains_key(medium),
    ensures
        keeps(a, a.called(medium, call), endpoint_id),
{
    let b = a.called(medium, call);
    lemma_keeps_reflexive(a, endpoint_id);
    assert(b.handlers.dom() =~= a.handlers.dom());
    assert forall|m: Medium| #[trigger] a.handlers.contains_key(m) implies goes_on(
        a.handlers[m],
        b.handlers[m],
    ) by {
        lemma_grows_push(a.handlers[m].calls, call);
    }
    assert forall|other: Seq<char>| other != endpoint_id implies #[trigger] untouched(
        a,
        b,
        other,
    ) by {}
}

proof fn lemma_keeps_retire(a: BwuView, endpoint_id: Seq<char>, channel: ChannelView)
    ensures
        keeps(a, a.retire(channel), endpoint_id),
{
    lemma_keeps_reflexive(a, endpoint_id);
    lemma_grows_push(a.retired, channel);
    assert forall|other: Seq<char>| other != endpoint_id implies #[trigger] untouched(
        a,
        a.retire(channel),
        other,
    ) by {}
}

proof fn lemma_keeps_handover(a: BwuView, endpoint_id: Seq<char>, handover: Handover)
    ensures
        keeps(a, BwuView { handovers: a.handovers.push(handover), ..a }, endpoint_id),
{
    let b = BwuView { handovers: a.handovers.push(handover), ..a };
    lemma_keeps_reflexive(a, endpoint_id);
    lemma_grows_push(a.handovers, handover);
    assert forall|other: Seq<char>| other != endpoint_id implies #[trigger] untouched(
        a,
        b,
        other,
    ) by {}
}

proof fn lemma_keeps_drop_previous(a: BwuView, endpoint_id: Seq<char>, reason: DisconnectionReason)
    ensures
        keeps(a, a.drop_previous(endpoint_id, reason), endpoint_id),
{
    lemma_keeps_reflexive(a, endpoint_id);
    if a.previous.contains_key(endpoint_id) {
        let b = BwuView { previous: a.previous.remove(endpoint_id), ..a };
        let closed = a.previous[endpoint_id].after(ChannelEvent::CloseWithReason(reason));
        lemma_keeps_local(a, b, endpoint_id);
        lemma_keeps_retire(b, endpoint_id, closed);
        lemma_keeps_transitive(a, b, b.retire(closed), endpoint_id);
    }
}

proof fn lemma_keeps_revert(a: BwuView, service_id: Seq<char>, endpoint_id: Seq<char>)
    ensures
        keeps(a, a.revert(service_id, endpoint_id), endpoint_id),
{
    let medium = a.bwu_medium(endpoint_id);
    let c = a.revert(service_id, endpoint_id);
    let b = if a.config.support_multiple_bwu_mediums {
        BwuView { mediums: a.mediums.remove(endpoint_id), ..a }
    } else {
        BwuView { medium: Medium::UnknownMedium, ..a }
    };
    lemma_keeps_local(a, b, endpoint_id);
    if c != b {
        let call = c.handlers[medium].calls.last();
        assert(c == b.called(medium, call));
        lemma_keeps_called(b, endpoint_id, medium, call);
        lemma_keeps_transitive(a, b, c, endpoint_id);
    }
}

proof fn lemma_keeps_attempt(
    a: BwuView,
    client: ClientView,
    endpoint_id: Seq<char>,
    medium: Medium,
    offer: Offer,
)
    ensures
        keeps(a, a.attempt(client, endpoint_id, medium, offer).0, endpoint_id),
{
    let b = a.with_bwu_medium(endpoint_id, medium);
    lemma_keeps_reflexive(a, endpoint_id);
    lemma_keeps_local(a, b, endpoint_id);
    let c = BwuView { alarms: b.alarms.remove(endpoint_id), ..b };
    lemma_keeps_local(b, c, endpoint_id);
    lemma_keeps_transitive(a, b, c, endpoint_id);
    if a.has_handler(medium) && a.channels.contains_key(endpoint_id) {
        let frame = a.frame_offered(client, endpoint_id, medium, offer);
        let call = BwuCall::Initialize {
            client,
            service_id: a.channels[endpoint_id].service_id,
            endpoint_id,
            frame,
        };
        let d = c.called(medium, call);
        lemma_keeps_called(c, endpoint_id, medium, call);
        lemma_keeps_transitive(a, c, d, endpoint_id);
        let event = ChannelEvent::Write(
            frame,
            a.channels[endpoint_id].writes(offer.write),
        );
        let e = d.used(endpoint_id, event);
        lemma_keeps_used(d, endpoint_id, event);
        lemma_keeps_transitive(a, d, e, endpoint_id);
        let f = BwuView { in_progress: e.in_progress.insert(endpoint_id), ..e };
        lemma_keeps_local(e, f, endpoint_id);
        lemma_keeps_transitive(a, e, f, endpoint_id);
    }
}

proof fn lemma_keeps_fall_back(a: BwuView, endpoint_id: Seq<char>)
    ensures
        keeps(a, a.fall_back(endpoint_id).0, endpoint_id),
{
    let b = BwuView { in_progress: a.in_progress.remove(endpoint_id), ..a };
    lemma_keeps_local(a, b, endpoint_id);
    let c = a.fall_back(endpoint_id).0;
    if c != b {
        let service_id = crate::bwu::service_id::wrapped(
            if a.channels.contains_key(endpoint_id) {
                a.channels[endpoint_id].service_id
            } else {
                crate::bwu::service_id::UNKNOWN_SERVICE_ID@
            },
        );
        assert(c == b.revert(service_id, endpoint_id));
        lemma_keeps_revert(b, service_id, endpoint_id);
        lemma_keeps_transitive(a, b, c, endpoint_id);
    }
}

proof fn lemma_keeps_schedule(a: BwuView, endpoint_id: Seq<char>)
    ensures
        keeps(a, a.schedule(endpoint_id), endpoint_id),
{
    let b = a.schedule(endpoint_id);
    if retries_sound(a) {
        assert(retries_sound(b)) by {
            assert forall|k: Seq<char>| #[trigger] b.alarms.contains_key(k) implies b.retry_delays.contains_key(
            k) && b.alarms[k] == b.retry_delays[k] by {
                if k != endpoint_id {
                    assert(a.alarms.contains_key(k));
                }
            }
            if a.config.initial_delay() <= a.config.max_delay() {
                assert forall|k: Seq<char>| #[trigger] b.retry_delays.contains_key(k) implies b.config.initial_delay()
                    <= b.retry_delays[k] <= b.config.max_delay() by {
                    if k != endpoint_id {
                        assert(a.retry_delays.contains_key(k));
                    } else if a.retry_delays.contains_key(k) {
                        assert(a.config.initial_delay() <= a.retry_delays[k]);
                    }
                }
            }
        }
    }
    lemma_keeps_local(a, b, endpoint_id);
}

proof fn lemma_keeps_try_next(
    a: BwuView,
    client: ClientView,
    endpoint_id: Seq<char>,
    mediums: Seq<Medium>,
    offers: Seq<Offer>,
)
    ensures
        keeps(a, a.try_next(client, endpoint_id, mediums, offers), endpoint_id),
    decreases mediums.len(),
{
    lemma_keeps_reflexive(a, endpoint_id);
    lemma_keeps_schedule(a, endpoint_id);
    let next = a.best_medium(endpoint_id, mediums);
    if mediums.len() > 0 {
        let (b, failed) = a.attempt(client, endpoint_id, next, offers[0]);
        lemma_keeps_attempt(a, client, endpoint_id, next, offers[0]);
        let (c, goes_on) = b.fall_back(endpoint_id);
        lemma_keeps_fall_back(b, endpoint_id);
        lemma_keeps_transitive(a, b, c, endpoint_id);
        let left = model::untried(mediums, model::info_medium(model::bare_path(next)));
        model::lemma_untried_shorter(mediums, model::info_medium(model::bare_path(next)));
        lemma_keeps_try_next(c, client, endpoint_id, left, offers.drop_first());
        lemma_keeps_transitive(
            a,
            c,
            c.try_next(client, endpoint_id, left, offers.drop_first()),
            endpoint_id,
        );
    }
}

proof fn lemma_keeps_failed(
    a: BwuView,
    client: ClientView,
    endpoint_id: Seq<char>,
    info: bwu::UpgradePathInfoView,
    offers: Seq<Offer>,
)
    ensures
        keeps(a, a.failed(client, endpoint_id, info, offers), endpoint_id),
{
    let (b, goes_on) = a.fall_back(endpoint_id);
    let left = model::untried(
        client.endpoint(endpoint_id).upgrade_mediums,
        model::info_medium(info),
    );
    lemma_keeps_fall_back(a, endpoint_id);
    lemma_keeps_try_next(b, client, endpoint_id, left, offers);
    lemma_keeps_transitive(a, b, b.try_next(client, endpoint_id, left, offers), endpoint_id);
}

proof fn lemma_keeps_last_write_seen(a: BwuView, endpoint_id: Seq<char>, write: Exception)
    ensures
        keeps(a, a.last_write_seen(endpoint_id, write), endpoint_id),
{
    let told = a.previous[endpoint_id].after(
        ChannelEvent::Write(
            frames::event_bytes(bwu::EventType::SafeToClosePriorChannel),
            a.previous[endpoint_id].writes(write),
        ),
    );
    let b = if a.previous.contains_key(endpoint_id) {
        BwuView { previous: a.previous.insert(endpoint_id, told), ..a }
    } else {
        BwuView { early: a.early.insert(endpoint_id), ..a }
    };
    lemma_keeps_local(a, b, endpoint_id);
    let c = b.drop_previous(endpoint_id, DisconnectionReason::IoError);
    lemma_keeps_drop_previous(b, endpoint_id, DisconnectionReason::IoError);
    lemma_keeps_transitive(a, b, c, endpoint_id);
}

proof fn lemma_keeps_moved(
    a: BwuView,
    client: ClientView,
    endpoint_id: Seq<char>,
    channel: ChannelView,
    o: Outcomes,
)
    ensures
        keeps(a, a.moved(client, endpoint_id, channel, o), endpoint_id),
{
    let paused = channel.after(ChannelEvent::SetLocalEndpointId(client.local_endpoint_id)).after(
        ChannelEvent::Pause,
    );
    lemma_keeps_retire(a, endpoint_id, paused);
    let prior = a.channels[endpoint_id].after(
        ChannelEvent::Write(
            frames::event_bytes(bwu::EventType::LastWriteToPriorChannel),
            a.channels[endpoint_id].writes(o.last_write),
        ),
    );
    let swapped = Handover::Swapped {
        endpoint_id,
        prior: a.channels[endpoint_id],
        next: paused,
    };
    let h = BwuView { handovers: a.handovers.push(swapped), ..a };
    lemma_keeps_handover(a, endpoint_id, swapped);
    let b = BwuView { channels: h.channels.insert(endpoint_id, paused), ..h };
    lemma_keeps_local(h, b, endpoint_id);
    lemma_keeps_transitive(a, h, b, endpoint_id);
    lemma_keeps_retire(b, endpoint_id, prior);
    lemma_keeps_transitive(a, b, b.retire(prior), endpoint_id);
    let c = if a.previous.contains_key(endpoint_id) {
        b.retire(a.previous[endpoint_id])
    } else {
        b
    };
    lemma_keeps_reflexive(b, endpoint_id);
    lemma_keeps_retire(b, endpoint_id, a.previous[endpoint_id]);
    lemma_keeps_transitive(a, b, c, endpoint_id);
    let d = BwuView { previous: c.previous.insert(endpoint_id, prior), ..c };
    lemma_keeps_local(c, d, endpoint_id);
    lemma_keeps_transitive(a, c, d, endpoint_id);
    let e = BwuView { early: d.early.remove(endpoint_id), ..d };
    lemma_keeps_local(d, e, endpoint_id);
    lemma_keeps_transitive(a, d, e, endpoint_id);
    let f = e.last_write_seen(endpoint_id, o.safe_to_close);
    lemma_keeps_last_write_seen(e, endpoint_id, o.safe_to_close);
    lemma_keeps_transitive(a, e, f, endpoint_id);
}

proof fn lemma_keeps_closed_prior(
    a: BwuView,
    client: ClientView,
    endpoint_id: Seq<char>,
    o: Outcomes,
)
    ensures
        keeps(a, a.closed_prior(client, endpoint_id, o).0, endpoint_id),
{
    lemma_keeps_reflexive(a, endpoint_id);
    if a.previous.contains_key(endpoint_id) {
        let ended = a.ended_prior(endpoint_id, o);
        let b = BwuView { previous: a.previous.remove(endpoint_id), ..a };
        lemma_keeps_local(a, b, endpoint_id);
        let c = b.retire(ended);
        lemma_keeps_retire(b, endpoint_id, ended);
        lemma_keeps_transitive(a, b, c, endpoint_id);
        let d = BwuView { in_progress: c.in_progress.remove(endpoint_id), ..c };
        lemma_keeps_local(c, d, endpoint_id);
        lemma_keeps_transitive(a, c, d, endpoint_id);
        let resumed = Handover::Resumed {
            endpoint_id,
            prior: ended,
            next: a.channels[endpoint_id],
        };
        let e = BwuView { handovers: d.handovers.push(resumed), ..d };
        lemma_keeps_handover(d, endpoint_id, resumed);
        lemma_keeps_transitive(a, d, e, endpoint_id);
        let f = e.used(endpoint_id, ChannelEvent::Resume);
        lemma_keeps_used(e, endpoint_id, ChannelEvent::Resume);
        lemma_keeps_transitive(a, e, f, endpoint_id);
    }
}

/// To refuse an offer keeps what [`keeps`] says.
pub proof fn lemma_refused_keeps(
    a: BwuView,
    endpoint_id: Seq<char>,
    info: bwu::UpgradePathInfoView,
    write: Exception,
)
    ensures
        keeps(a, a.refused(endpoint_id, info, write), endpoint_id),
{
    lemma_keeps_reflexive(a, endpoint_id);
    let event = ChannelEvent::Write(
        frames::failure_bytes(info),
        a.channels[endpoint_id].writes(write),
    );
    let b = a.used(endpoint_id, event);
    lemma_keeps_used(a, endpoint_id, event);
    let close = ChannelEvent::CloseWithReason(DisconnectionReason::IoError);
    lemma_keeps_used(b, endpoint_id, close);
    lemma_keeps_transitive(a, b, b.used(endpoint_id, close), endpoint_id);
    let service_id = a.channels[endpoint_id].service_id;
    let c = if a.bwu_medium(endpoint_id) is UnknownMedium {
        b
    } else {
        b.revert(service_id, endpoint_id)
    };
    lemma_keeps_reflexive(b, endpoint_id);
    lemma_keeps_revert(b, service_id, endpoint_id);
    lemma_keeps_transitive(a, b, c, endpoint_id);
    let d = BwuView { in_progress: c.in_progress.remove(endpoint_id), ..c };
    lemma_keeps_local(c, d, endpoint_id);
    lemma_keeps_transitive(a, c, d, endpoint_id);
}

proof fn lemma_keeps_joined(
    a: BwuView,
    client: ClientView,
    endpoint_id: Seq<char>,
    info: bwu::UpgradePathInfoView,
    o: Outcomes,
)
    ensures
        keeps(a, a.joined(client, endpoint_id, info, o).0, endpoint_id),
{
    lemma_keeps_reflexive(a, endpoint_id);
    let medium = model::info_medium(info);
    if a.has_handler(medium) {
        let call = BwuCall::Create {
            client,
            service_id: a.channels[endpoint_id].service_id,
            endpoint_id,
            info,
            channel: a.channel_created(client, endpoint_id, info, o),
        };
        let b = a.called(medium, call);
        lemma_keeps_called(a, endpoint_id, medium, call);
        let c = a.joined(client, endpoint_id, info, o).0;
        if c != b && c != a {
            let channel = c.retired.last();
            assert(c == b.retire(channel));
            lemma_keeps_retire(b, endpoint_id, channel);
            lemma_keeps_transitive(a, b, c, endpoint_id);
        }
    }
}

proof fn lemma_keeps_offered(
    a: BwuView,
    client: ClientView,
    endpoint_id: Seq<char>,
    info: bwu::UpgradePathInfoView,
    o: Outcomes,
)
    ensures
        keeps(a, a.offered(client, endpoint_id, info, o), endpoint_id),
{
    lemma_keeps_reflexive(a, endpoint_id);
    lemma_refused_keeps(a, endpoint_id, info, o.refusal);
    if a.in_progress.contains(endpoint_id) {
        let b = a.drop_previous(endpoint_id, DisconnectionReason::Unfinished);
        lemma_keeps_drop_previous(a, endpoint_id, DisconnectionReason::Unfinished);
        let c = b.used(endpoint_id, ChannelEvent::Resume);
        lemma_keeps_used(b, endpoint_id, ChannelEvent::Resume);
        lemma_keeps_transitive(a, b, c, endpoint_id);
        let close = ChannelEvent::CloseWithReason(DisconnectionReason::Unfinished);
        lemma_keeps_used(c, endpoint_id, close);
        lemma_keeps_transitive(a, c, c.used(endpoint_id, close), endpoint_id);
    } else {
        let b = if a.bwu_medium(endpoint_id) is UnknownMedium {
            a.with_bwu_medium(endpoint_id, model::info_medium(info))
        } else {
            a
        };
        lemma_keeps_local(
            a,
            a.with_bwu_medium(endpoint_id, model::info_medium(info)),
            endpoint_id,
        );
        lemma_refused_keeps(b, endpoint_id, info, o.refusal);
        lemma_keeps_transitive(a, b, b.refused(endpoint_id, info, o.refusal), endpoint_id);
        let (c, channel) = b.joined(client, endpoint_id, info, o);
        lemma_keeps_joined(b, client, endpoint_id, info, o);
        lemma_keeps_transitive(a, b, c, endpoint_id);
        lemma_refused_keeps(c, endpoint_id, info, o.refusal);
        lemma_keeps_transitive(a, c, c.refused(endpoint_id, info, o.refusal), endpoint_id);
        if let Some(channel) = channel {
            let d = BwuView { in_progress: c.in_progress.insert(endpoint_id), ..c };
            lemma_keeps_local(c, d, endpoint_id);
            lemma_keeps_transitive(a, c, d, endpoint_id);
            lemma_keeps_moved(d, client, endpoint_id, channel, o);
            lemma_keeps_transitive(a, d, d.moved(client, endpoint_id, channel, o), endpoint_id);
        }
    }
}

/// Starting an upgrade of an endpoint keeps what [`keeps`] says.
pub proof fn lemma_initiated_keeps(
    a: BwuView,
    client: ClientView,
    endpoint_id: Seq<char>,
    medium: Medium,
    offers: Seq<Offer>,
)
    ensures
        keeps(a, a.initiated(client, endpoint_id, medium, offers), endpoint_id),
{
    let (b, failed) = a.attempt(client, endpoint_id, medium, offers[0]);
    lemma_keeps_attempt(a, client, endpoint_id, medium, offers[0]);
    let info = model::bare_path(medium);
    let c = b.failed(client, endpoint_id, info, offers.drop_first());
    lemma_keeps_failed(b, client, endpoint_id, info, offers.drop_first());
    lemma_keeps_transitive(a, b, c, endpoint_id);
}

/// A retry of an endpoint keeps what [`keeps`] says.
pub proof fn lemma_alarm_fired_keeps(
    a: BwuView,
    client: ClientView,
    endpoint_id: Seq<char>,
    offers: Seq<Offer>,
)
    ensures
        keeps(a, a.alarm_fired(client, endpoint_id, offers), endpoint_id),
{
    lemma_keeps_reflexive(a, endpoint_id);
    let b = BwuView { alarms: a.alarms.remove(endpoint_id), ..a };
    lemma_keeps_local(a, b, endpoint_id);
    let mediums = client.endpoint(endpoint_id).upgrade_mediums;
    lemma_keeps_try_next(b, client, endpoint_id, mediums, offers);
    lemma_keeps_transitive(a, b, b.try_next(client, endpoint_id, mediums, offers), endpoint_id);
}

/// A frame of an endpoint keeps what [`keeps`] says, and tells the client of no other
/// endpoint.
pub proof fn lemma_received_keeps(
    a: BwuView,
    client: ClientView,
    frame: pb::OfflineFrameView,
    endpoint_id: Seq<char>,
    o: Outcomes,
)
    ensures
        ({
            let (b, told) = a.received(client, frame, endpoint_id, o);
            &&& keeps(a, b, endpoint_id)
            &&& told == client || told == (ClientView {
                bandwidth_changed: client.bandwidth_changed.push(
                    (endpoint_id, a.channels[endpoint_id].medium),
                ),
                ..client
            })
        }),
{
    lemma_keeps_reflexive(a, endpoint_id);
    if frames::frame_type_of(frame) is BandwidthUpgradeNegotiation {
        if let Some(step) = frame.v1->0.bandwidth_upgrade_negotiation {
            lemma_keeps_last_write_seen(a, endpoint_id, o.safe_to_close);
            lemma_keeps_closed_prior(a, client, endpoint_id, o);
            if let Some(info) = step.upgrade_path_info {
                lemma_refused_keeps(a, endpoint_id, info, o.refusal);
                lemma_keeps_offered(a, client, endpoint_id, info, o);
                lemma_keeps_failed(a, client, endpoint_id, info, o.offers);
            }
        }
    }
}

/// A channel that a peer opens keeps what [`keeps`] says of the endpoint that introduces
/// itself over it.
pub proof fn lemma_connected_keeps(
    a: BwuView,
    client: ClientView,
    channel: ChannelView,
    o: Outcomes,
)
    ensures
        keeps(
            a,
            a.connected(client, channel, o),
            match model::introduction_read(channel.reads(o.introduced)) {
                Some(introduction) => match introduction.endpoint_id {
                    Some(id) => id,
                    None => Seq::empty(),
                },
                None => Seq::empty(),
            },
        ),
{
    let read = channel.after(ChannelEvent::Read(channel.reads(o.introduced)));
    match model::introduction_read(channel.reads(o.introduced)) {
        None => {
            lemma_keeps_retire(a, Seq::empty(), read.after(ChannelEvent::Close));
        },
        Some(introduction) => {
            let endpoint_id = match introduction.endpoint_id {
                Some(id) => id,
                None => Seq::empty(),
            };
            let confirmed = read.after(
                ChannelEvent::Write(
                    frames::event_bytes(bwu::EventType::ClientIntroductionAck),
                    channel.writes(o.confirmation),
                ),
            );
            lemma_keeps_retire(a, endpoint_id, confirmed.after(ChannelEvent::Close));
            lemma_keeps_retire(a, endpoint_id, confirmed);
            lemma_keeps_moved(a, client, endpoint_id, confirmed, o);
        },
    }
}

/// That an endpoint disconnects keeps what [`keeps`] says, and nothing of its upgrade is
/// left: it is not in progress, it has no prior channel, and its retries start over. With
/// several mediums it has no medium, either.
pub proof fn lemma_disconnected(
    a: BwuView,
    client: ClientView,
    service_id: Seq<char>,
    endpoint_id: Seq<char>,
)
    ensures
        ({
            let b = a.disconnected(client, service_id, endpoint_id);
            &&& keeps(a, b, endpoint_id)
            &&& !b.in_progress.contains(endpoint_id)
            &&& !b.previous.contains_key(endpoint_id)
            &&& !b.early.contains(endpoint_id)
            &&& !b.alarms.contains_key(endpoint_id)
            &&& b.next_delay(endpoint_id) == b.config.initial_delay()
            &&& same_at(a.channels, b.channels, endpoint_id)
            &&& !a.medium_is_shared() ==> b.bwu_medium(endpoint_id) is UnknownMedium
        }),
{
    let medium = a.bwu_medium(endpoint_id);
    let call = BwuCall::Disconnect { client, endpoint_id };
    let b = if a.has_handler(medium) {
        a.called(medium, call)
    } else {
        a
    };
    lemma_keeps_reflexive(a, endpoint_id);
    if a.has_handler(medium) {
        lemma_keeps_called(a, endpoint_id, medium, call);
    }
    let c = b.drop_previous(endpoint_id, DisconnectionReason::Shutdown);
    lemma_keeps_drop_previous(b, endpoint_id, DisconnectionReason::Shutdown);
    lemma_keeps_transitive(a, b, c, endpoint_id);
    let d = BwuView {
        in_progress: c.in_progress.remove(endpoint_id),
        early: c.early.remove(endpoint_id),
        retry_delays: c.retry_delays.remove(endpoint_id),
        alarms: c.alarms.remove(endpoint_id),
        ..c
    };
    assert(retries_sound(c) ==> retries_sound(d)) by {
        if retries_sound(c) {
            assert forall|k: Seq<char>| #[trigger] d.alarms.contains_key(k) implies d.retry_delays.contains_key(
            k) && d.alarms[k] == d.retry_delays[k] by {
                assert(c.alarms.contains_key(k));
            }
            assert forall|k: Seq<char>| #[trigger]
                d.retry_delays.contains_key(k) implies c.retry_delays.contains_key(k) by {}
        }
    }
    lemma_keeps_local(c, d, endpoint_id);
    lemma_keeps_transitive(a, c, d, endpoint_id);
    lemma_keeps_revert(d, service_id, endpoint_id);
    lemma_keeps_transitive(a, d, d.revert(service_id, endpoint_id), endpoint_id);
}

/// That everything is shut down reverts every handler once and forgets every upgrade,
/// but leaves the channels of the endpoints alone. The prior channels are let go as they
/// are: none is closed.
pub proof fn lemma_shut_down(a: BwuView, order: Seq<Seq<char>>, endpoint_id: Seq<char>)
    requires
        model::lists_channels(order, a.previous),
    ensures
        ({
            let b = a.shut_down(order);
            &&& b.channels == a.channels
            &&& b.dropped == a.dropped
            &&& !b.in_progress.contains(endpoint_id)
            &&& !b.previous.contains_key(endpoint_id)
            &&& !b.early.contains(endpoint_id)
            &&& !b.alarms.contains_key(endpoint_id)
            &&& b.next_delay(endpoint_id) == b.config.initial_delay()
            &&& b.handlers.dom() == a.handlers.dom()
            &&& forall|m: Medium| #[trigger]
                a.handlers.contains_key(m) ==> b.handlers[m] == a.handlers[m].after(
                    BwuCall::RevertAll,
                )
            &&& grows(a.retired, b.retired)
            &&& a.previous.contains_key(endpoint_id) ==> b.retired.contains(
                a.previous[endpoint_id],
            )
            &&& retries_sound(b)
        }),
{
    let b = a.shut_down(order);
    assert(b.handlers.dom() =~= a.handlers.dom());
    assert(b.retired.take(a.retired.len() as int) =~= a.retired);
    if a.previous.contains_key(endpoint_id) {
        assert(order.contains(endpoint_id));
        let i = choose|i: int| 0 <= i < order.len() && order[i] == endpoint_id;
        assert(b.retired[a.retired.len() + i] == a.previous[endpoint_id]);
    }
}

/// That an endpoint is connected, or its channel forgotten, does nothing to a channel: the
/// one that the endpoint had is dropped as it was.
pub proof fn lemma_dropped_as_it_was(
    a: BwuView,
    endpoint_id: Seq<char>,
    channel: ChannelView,
    other: Seq<char>,
)
    requires
        a.channels.contains_key(endpoint_id),
        other != endpoint_id,
    ensures
        ({
            let b = a.unregistered(endpoint_id);
            &&& !b.channels.contains_key(endpoint_id)
            &&& untouched(a, b, other)
            &&& b.dropped == a.dropped.push(a.channels[endpoint_id])
            &&& b.retired == a.retired
        }),
        ({
            let b = a.registered(endpoint_id, channel);
            &&& b.channels.contains_key(endpoint_id)
            &&& b.channels[endpoint_id] == channel
            &&& untouched(a, b, other)
            &&& b.dropped == a.dropped.push(a.channels[endpoint_id])
            &&& b.retired == a.retired
        }),
{
}

// ---------------------------------------------------------------------------
// The handshake
// ---------------------------------------------------------------------------

/// A step of a bandwidth upgrade that consists of its event alone.
pub open spec fn event_step(event: bwu::EventType) -> pb::BandwidthUpgradeNegotiationFrameView {
    pb::BandwidthUpgradeNegotiationFrameView {
        event_type: Some(event.value()),
        ..pb::BandwidthUpgradeNegotiationFrameView::unset()
    }
}

/// The frame of a step of a bandwidth upgrade.
pub open spec fn step_frame(
    step: pb::BandwidthUpgradeNegotiationFrameView,
) -> pb::OfflineFrameView {
    frames::version_1(
        pb::V1FrameView {
            type_: Some(pb::v1_frame::FrameType::BandwidthUpgradeNegotiation.value()),
            bandwidth_upgrade_negotiation: Some(step),
            ..pb::V1FrameView::unset()
        },
    )
}

/// What one side writes for the last write, the end of the prior channel and the
/// confirmation of an introduction, the other side reads as that event.
pub proof fn lemma_event_parsed(event: bwu::EventType)
    requires
        event is LastWriteToPriorChannel || event is SafeToClosePriorChannel || event
            is ClientIntroductionAck,
        frames::event_bytes(event).len() <= u64::MAX,
    ensures
        frames::parsed(frames::event_bytes(event)) == Ok::<pb::OfflineFrameView, Exception>(
            step_frame(event_step(event)),
        ),
        model::carried(Ok(frames::event_bytes(event))) == Some(event_step(event)),
        model::event_of(event_step(event)) == event,
        model::confirmation_read(Ok(frames::event_bytes(event))) == (event
            is ClientIntroductionAck),
{
    frames::lemma_parsed_frame_bytes(step_frame(event_step(event)).v1->0);
}

/// The frame of a step of a bandwidth upgrade is taken as that step.
pub proof fn lemma_step_received(
    a: BwuView,
    client: ClientView,
    step: pb::BandwidthUpgradeNegotiationFrameView,
    endpoint_id: Seq<char>,
    o: Outcomes,
)
    ensures
        a.received(client, step_frame(step), endpoint_id, o) == a.negotiated(
            client,
            step,
            endpoint_id,
            o,
        ),
{
}

/// What one side writes to introduce itself, the other side reads.
pub proof fn lemma_introduction_read(
    endpoint_id: Seq<char>,
    last_endpoint_id: Seq<char>,
    supports_disabling_encryption: bool,
)
    requires
        frames::introduction_bytes(
            endpoint_id,
            last_endpoint_id,
            supports_disabling_encryption,
        ).len() <= u64::MAX,
    ensures
        model::introduction_read(
            Ok(
                frames::introduction_bytes(
                    endpoint_id,
                    last_endpoint_id,
                    supports_disabling_encryption,
                ),
            ),
        ) == Some(
            bwu::ClientIntroductionView {
                endpoint_id: Some(endpoint_id),
                supports_disabling_encryption: Some(supports_disabling_encryption),
                last_endpoint_id: frames::unless_empty(last_endpoint_id),
            },
        ),
{
    let step = pb::BandwidthUpgradeNegotiationFrameView {
        event_type: Some(bwu::EventType::ClientIntroduction.value()),
        client_introduction: Some(
            bwu::ClientIntroductionView {
                endpoint_id: Some(endpoint_id),
                supports_disabling_encryption: Some(supports_disabling_encryption),
                last_endpoint_id: frames::unless_empty(last_endpoint_id),
            },
        ),
        ..pb::BandwidthUpgradeNegotiationFrameView::unset()
    };
    frames::lemma_parsed_frame_bytes(step_frame(step).v1->0);
}

/// A peer that introduces itself over a new channel, while an upgrade of its endpoint is
/// in progress, is confirmed and moved to that channel.
pub proof fn lemma_introduced_moves(
    a: BwuView,
    client: ClientView,
    channel: ChannelView,
    endpoint_id: Seq<char>,
    last_endpoint_id: Seq<char>,
    supports_disabling_encryption: bool,
    o: Outcomes,
)
    requires
        frames::introduction_bytes(
            endpoint_id,
            last_endpoint_id,
            supports_disabling_encryption,
        ).len() <= u64::MAX,
        channel.reads(o.introduced) == Ok::<Seq<u8>, Exception>(
            frames::introduction_bytes(
                endpoint_id,
                last_endpoint_id,
                supports_disabling_encryption,
            ),
        ),
        channel.writes(o.confirmation).ok(),
        a.in_progress.contains(endpoint_id),
    ensures
        a.connected(client, channel, o) == a.moved(
            client,
            endpoint_id,
            channel.after(ChannelEvent::Read(channel.reads(o.introduced))).after(
                ChannelEvent::Write(
                    frames::event_bytes(bwu::EventType::ClientIntroductionAck),
                    channel.writes(o.confirmation),
                ),
            ),
            o,
        ),
{
    lemma_introduction_read(endpoint_id, last_endpoint_id, supports_disabling_encryption);
}

/// The step that tells that a medium could not be reached.
pub open spec fn failure_step(
    info: bwu::UpgradePathInfoView,
) -> pb::BandwidthUpgradeNegotiationFrameView {
    pb::BandwidthUpgradeNegotiationFrameView {
        event_type: Some(bwu::EventType::UpgradeFailure.value()),
        upgrade_path_info: Some(info),
        ..pb::BandwidthUpgradeNegotiationFrameView::unset()
    }
}

/// What one side writes to refuse an offer, the other side takes as the failure of that
/// offer.
pub proof fn lemma_refusal_received(
    a: BwuView,
    client: ClientView,
    info: bwu::UpgradePathInfoView,
    endpoint_id: Seq<char>,
    o: Outcomes,
)
    requires
        frames::failure_bytes(info).len() <= u64::MAX,
        client.endpoint(endpoint_id).connected,
    ensures
        frames::parsed(frames::failure_bytes(info)) == Ok::<pb::OfflineFrameView, Exception>(
            step_frame(failure_step(info)),
        ),
        a.received(client, step_frame(failure_step(info)), endpoint_id, o) == (
            a.failed(client, endpoint_id, info, o.offers),
            client,
        ),
{
    frames::lemma_parsed_frame_bytes(step_frame(failure_step(info)).v1->0);
    lemma_step_received(a, client, failure_step(info), endpoint_id, o);
}

/// An offer that comes to a connected endpoint with no upgrade under way, of a medium that
/// has a handler and can be joined, and over which the introduction goes well, moves the
/// endpoint to the new channel, which is paused. The peer is told on the prior one.
pub proof fn lemma_offer_taken(
    a: BwuView,
    client: ClientView,
    endpoint_id: Seq<char>,
    info: bwu::UpgradePathInfoView,
    o: Outcomes,
)
    requires
        !a.tears_down_wifi_lan(model::info_medium(info)),
        !client.endpoint(endpoint_id).is_incoming,
        !a.in_progress.contains(endpoint_id),
        a.channels.contains_key(endpoint_id),
        a.bwu_medium(endpoint_id) is UnknownMedium || a.bwu_medium(endpoint_id)
            == model::info_medium(info),
        a.has_handler(model::info_medium(info)),
        a.channel_created(client, endpoint_id, info, o) matches Some(created) && created.writes(o.introduction).ok() && (model::is_set(
            info.supports_client_introduction_ack,
        ) ==> model::confirmation_read(created.reads(o.confirmed))),
        a.channels[endpoint_id].writes(o.last_write).ok(),
        !a.early.contains(endpoint_id),
    ensures
        ({
            let b = a.offered(client, endpoint_id, info, o);
            &&& b.in_progress == a.in_progress.insert(endpoint_id)
            &&& b.bwu_medium(endpoint_id) == model::info_medium(info)
            &&& b.channels[endpoint_id].medium == a.channel_created(
                client,
                endpoint_id,
                info,
                o,
            )->0.medium
            &&& channel::was_paused(b.channels[endpoint_id].history)
            &&& b.channels[endpoint_id].local_endpoint_id() == client.local_endpoint_id
            &&& b.previous.contains_key(endpoint_id)
            &&& b.previous[endpoint_id] == a.channels[endpoint_id].after(
                ChannelEvent::Write(
                    frames::event_bytes(bwu::EventType::LastWriteToPriorChannel),
                    a.channels[endpoint_id].writes(o.last_write),
                ),
            )
        }),
{
    let b = a.offered(client, endpoint_id, info, o);
    let history = b.channels[endpoint_id].history;
    assert(history.last() is Pause);
    assert(history.drop_last().last() == ChannelEvent::SetLocalEndpointId(
        client.local_endpoint_id,
    ));
    reveal_with_fuel(channel::last_local_endpoint_id, 2);
}

/// The order of a move: first the new channel is paused, next it takes the place of the
/// prior one, and only then the last write goes out on the prior one.
///
/// When the two are swapped the new channel is paused and the prior one is as it was.
/// After that nothing is done to the new channel, and nothing but the last write to the
/// prior one, which is kept open if that went out. Without a channel to move from, the new
/// one is paused and let go.
pub proof fn lemma_moved_in_order(
    a: BwuView,
    client: ClientView,
    endpoint_id: Seq<char>,
    channel: ChannelView,
    o: Outcomes,
)
    requires
        !a.early.contains(endpoint_id),
    ensures
        ({
            let b = a.moved(client, endpoint_id, channel, o);
            let next = channel.after(
                ChannelEvent::SetLocalEndpointId(client.local_endpoint_id),
            ).after(ChannelEvent::Pause);
            let prior = a.channels[endpoint_id];
            let last_write = prior.writes(o.last_write);
            let told = prior.after(
                ChannelEvent::Write(
                    frames::event_bytes(bwu::EventType::LastWriteToPriorChannel),
                    last_write,
                ),
            );
            &&& channel::was_paused(next.history)
            &&& if a.channels.contains_key(endpoint_id) {
                &&& b.handovers == a.handovers.push(Handover::Swapped { endpoint_id, prior, next })
                &&& b.channels == a.channels.insert(endpoint_id, next)
                &&& if last_write.ok() {
                    b.previous == a.previous.insert(endpoint_id, told)
                } else {
                    b.previous == a.previous && b.retired == a.retired.push(told)
                }
            } else {
                b == a.retire(next)
            }
        }),
{
}

/// The end of the prior channel: it is told in plaintext, drained once and closed as
/// upgraded, whatever the write and the read gave. Only then writes to the new channel are
/// let through, the client is told, and the upgrade is no longer in progress.
pub proof fn lemma_prior_ended(
    a: BwuView,
    client: ClientView,
    endpoint_id: Seq<char>,
    o: Outcomes,
)
    requires
        a.previous.contains_key(endpoint_id),
        a.channels.contains_key(endpoint_id),
    ensures
        ({
            let (b, told) = a.closed_prior(client, endpoint_id, o);
            let prior = a.previous[endpoint_id];
            let next = a.channels[endpoint_id];
            let ended = prior.after(ChannelEvent::DisableEncryption).after(
                ChannelEvent::Write(
                    frames::disconnection_bytes(false, false),
                    prior.writes(o.disconnection),
                ),
            ).after(ChannelEvent::Read(prior.reads(o.drain))).after(
                ChannelEvent::CloseWithReason(DisconnectionReason::Upgraded),
            );
            &&& b.retired == a.retired.push(ended)
            &&& b.previous == a.previous.remove(endpoint_id)
            &&& b.handovers == a.handovers.push(
                Handover::Resumed { endpoint_id, prior: ended, next },
            )
            &&& b.channels == a.channels.insert(endpoint_id, next.after(ChannelEvent::Resume))
            &&& b.in_progress == a.in_progress.remove(endpoint_id)
            &&& told == (ClientView {
                bandwidth_changed: client.bandwidth_changed.push((endpoint_id, next.medium)),
                ..client
            })
        }),
{
}

/// That the prior channel can be closed is taken once: a second time nothing happens.
pub proof fn lemma_prior_ended_once(
    a: BwuView,
    client: ClientView,
    endpoint_id: Seq<char>,
    first: Outcomes,
    second: Outcomes,
)
    ensures
        ({
            let (b, told) = a.closed_prior(client, endpoint_id, first);
            b.closed_prior(told, endpoint_id, second) == (b, told)
        }),
        ({
            let frame = step_frame(event_step(bwu::EventType::SafeToClosePriorChannel));
            let (b, told) = a.received(client, frame, endpoint_id, first);
            b.received(told, frame, endpoint_id, second) == (b, told)
        }),
{
    let step = event_step(bwu::EventType::SafeToClosePriorChannel);
    let (b, told) = a.received(client, step_frame(step), endpoint_id, first);
    lemma_step_received(a, client, step, endpoint_id, first);
    lemma_step_received(b, told, step, endpoint_id, second);
}

/// To give up the medium of an endpoint a second time does nothing.
pub proof fn lemma_reverted_once(
    a: BwuView,
    endpoint_id: Seq<char>,
    first_service_id: Seq<char>,
    second_service_id: Seq<char>,
)
    ensures
        ({
            let b = a.revert(first_service_id, endpoint_id);
            &&& b.bwu_medium(endpoint_id) is UnknownMedium
            &&& b.revert(second_service_id, endpoint_id) == b
        }),
{
    let b = a.revert(first_service_id, endpoint_id);
    if a.config.support_multiple_bwu_mediums {
        assert(b.mediums.remove(endpoint_id) =~= b.mediums);
    }
}

/// While some endpoint is connected over the local network, neither a hotspot nor a Wi-Fi
/// Direct group is offered or joined: to start such an upgrade changes nothing, and an
/// offer of one is refused.
pub proof fn lemma_wifi_lan_kept(
    a: BwuView,
    client: ClientView,
    endpoint_id: Seq<char>,
    connected: Seq<char>,
    medium: Medium,
    info: bwu::UpgradePathInfoView,
    o: Outcomes,
)
    requires
        a.channels.contains_key(connected),
        a.channels[connected].medium is WifiLan,
        medium is WifiHotspot || medium is WifiDirect,
    ensures
        a.initiated(client, endpoint_id, medium, o.offers) == a,
        model::info_medium(info) == medium ==> a.offered(client, endpoint_id, info, o)
            == a.refused(endpoint_id, info, o.refusal),
{
}

/// It does not matter whether the last write of the peer comes before this side has moved
/// to the new channel or after.
pub proof fn lemma_early_last_write(
    a: BwuView,
    client: ClientView,
    endpoint_id: Seq<char>,
    channel: ChannelView,
    early: Exception,
    o: Outcomes,
)
    requires
        a.channels.contains_key(endpoint_id),
        !a.previous.contains_key(endpoint_id),
        !a.early.contains(endpoint_id),
        a.channels[endpoint_id].writes(o.last_write).ok(),
    ensures
        a.last_write_seen(endpoint_id, early).moved(client, endpoint_id, channel, o) == a.moved(
            client,
            endpoint_id,
            channel,
            o,
        ).last_write_seen(endpoint_id, o.safe_to_close),
{
    let x = a.last_write_seen(endpoint_id, early).moved(client, endpoint_id, channel, o);
    let y = a.moved(client, endpoint_id, channel, o).last_write_seen(
        endpoint_id,
        o.safe_to_close,
    );
    assert(a.early.insert(endpoint_id).remove(endpoint_id) =~= a.early);
    assert(x =~= y);
}

/// From the move to the end of the prior channel.
///
/// The new channel is in use at once, but paused, and the prior one is kept open. When
/// the peer has finished with the prior channel and it can be closed, it is closed for
/// the reason that it was upgraded, the new channel goes on, the client is told of the
/// new medium, and the upgrade is no longer in progress.
pub proof fn lemma_upgrade_completes(
    a: BwuView,
    client: ClientView,
    endpoint_id: Seq<char>,
    channel: ChannelView,
    moving: Outcomes,
    last: Outcomes,
    closing: Outcomes,
)
    requires
        client.endpoint(endpoint_id).connected,
        a.in_progress.contains(endpoint_id),
        a.channels.contains_key(endpoint_id),
        !a.early.contains(endpoint_id),
        a.channels[endpoint_id].writes(moving.last_write).ok(),
        a.channels[endpoint_id].writes(last.safe_to_close).ok(),
    ensures
        ({
            let b = a.moved(client, endpoint_id, channel, moving);
            let (c, same) = b.received(
                client,
                step_frame(event_step(bwu::EventType::LastWriteToPriorChannel)),
                endpoint_id,
                last,
            );
            let (d, told) = c.received(
                client,
                step_frame(event_step(bwu::EventType::SafeToClosePriorChannel)),
                endpoint_id,
                closing,
            );
            &&& b.channels[endpoint_id].medium == channel.medium
            &&& channel::was_paused(b.channels[endpoint_id].history)
            &&& channel::was_paused(c.channels[endpoint_id].history)
            &&& channel::was_closed(c.previous[endpoint_id].history) == channel::was_closed(
                a.channels[endpoint_id].history,
            )
            &&& same == client
            &&& d.channels[endpoint_id].medium == channel.medium
            &&& !channel::was_paused(d.channels[endpoint_id].history)
            &&& !d.previous.contains_key(endpoint_id)
            &&& !d.in_progress.contains(endpoint_id)
            &&& d.retired.len() == c.retired.len() + 1
            &&& d.retired.last().medium == a.channels[endpoint_id].medium
            &&& channel::was_closed(d.retired.last().history)
            &&& channel::last_reason(d.retired.last().history) == DisconnectionReason::Upgraded
            &&& told == (ClientView {
                bandwidth_changed: client.bandwidth_changed.push((endpoint_id, channel.medium)),
                ..client
            })
        }),
{
    let b = a.moved(client, endpoint_id, channel, moving);
    let last_step = event_step(bwu::EventType::LastWriteToPriorChannel);
    let close_step = event_step(bwu::EventType::SafeToClosePriorChannel);
    lemma_step_received(b, client, last_step, endpoint_id, last);
    let c = b.received(client, step_frame(last_step), endpoint_id, last).0;
    lemma_step_received(c, client, close_step, endpoint_id, closing);
    let prior = a.channels[endpoint_id];
    let w1 = ChannelEvent::Write(
        frames::event_bytes(bwu::EventType::LastWriteToPriorChannel),
        prior.writes(moving.last_write),
    );
    let w2 = ChannelEvent::Write(
        frames::event_bytes(bwu::EventType::SafeToClosePriorChannel),
        prior.writes(last.safe_to_close),
    );
    assert(prior.after(w1).history.drop_last() =~= prior.history);
    assert(prior.after(w1).after(w2).history.drop_last() =~= prior.after(w1).history);
    assert(c.previous[endpoint_id] == prior.after(w1).after(w2));
    reveal_with_fuel(channel::was_closed, 3);
}

/// Frames that come at the wrong time change nothing: the last write and the end of the
/// prior channel when no upgrade is in progress.
pub proof fn lemma_unexpected_frame(
    a: BwuView,
    client: ClientView,
    event: bwu::EventType,
    endpoint_id: Seq<char>,
    o: Outcomes,
)
    requires
        event is LastWriteToPriorChannel || event is SafeToClosePriorChannel,
        !a.in_progress.contains(endpoint_id),
    ensures
        a.received(client, step_frame(event_step(event)), endpoint_id, o) == (a, client),
{
    lemma_step_received(a, client, event_step(event), endpoint_id, o);
}

/// A frame that comes before the connection is established starts no upgrade.
pub proof fn lemma_blocked_before_accept(
    a: BwuView,
    client: ClientView,
    frame: pb::OfflineFrameView,
    endpoint_id: Seq<char>,
    o: Outcomes,
)
    requires
        !client.endpoint(endpoint_id).connected,
    ensures
        ({
            let (b, told) = a.received(client, frame, endpoint_id, o);
            &&& told == client
            &&& b.in_progress.subset_of(a.in_progress)
            &&& b.previous == a.previous
            &&& b.early == a.early
            &&& b.alarms == a.alarms
        }),
{
}

/// The side that was asked for the connection does not join a medium.
pub proof fn lemma_blocked_from_advertiser(
    a: BwuView,
    client: ClientView,
    endpoint_id: Seq<char>,
    info: bwu::UpgradePathInfoView,
    o: Outcomes,
)
    requires
        client.endpoint(endpoint_id).is_incoming,
    ensures
        a.offered(client, endpoint_id, info, o).in_progress.subset_of(a.in_progress),
        a.offered(client, endpoint_id, info, o).previous == a.previous,
        !a.tears_down_wifi_lan(model::info_medium(info)) ==> a.offered(client, endpoint_id, info, o) == a,
{
}

// ---------------------------------------------------------------------------
// Offering
// ---------------------------------------------------------------------------

/// An offer that the handler could make and that could be written puts the upgrade in
/// progress. The endpoint stays on the channel that it has.
pub proof fn lemma_offer_succeeds(
    a: BwuView,
    client: ClientView,
    endpoint_id: Seq<char>,
    medium: Medium,
    offers: Seq<Offer>,
)
    requires
        !a.tears_down_wifi_lan(medium),
        a.has_handler(medium),
        !a.in_progress.contains(endpoint_id),
        a.channels.contains_key(endpoint_id),
        a.channels[endpoint_id].medium != medium,
        a.frame_offered(client, endpoint_id, medium, offers[0]).len() > 0,
        a.channels[endpoint_id].writes(offers[0].write).ok(),
    ensures
        ({
            let b = a.initiated(client, endpoint_id, medium, offers);
            let frame = a.frame_offered(client, endpoint_id, medium, offers[0]);
            &&& b.in_progress == a.in_progress.insert(endpoint_id)
            &&& !b.alarms.contains_key(endpoint_id)
            &&& b.bwu_medium(endpoint_id) == medium
            &&& b.handlers == a.handlers.insert(
                medium,
                a.handlers[medium].after(
                    BwuCall::Initialize {
                        client,
                        service_id: a.channels[endpoint_id].service_id,
                        endpoint_id,
                        frame,
                    },
                ),
            )
            &&& b.channels == a.channels.insert(
                endpoint_id,
                a.channels[endpoint_id].after(
                    ChannelEvent::Write(
                        frame,
                        a.channels[endpoint_id].writes(offers[0].write),
                    ),
                ),
            )
            &&& b.retry_delays == a.retry_delays
            &&& b.previous == a.previous
            &&& b.retired == a.retired
        }),
{
}

/// While an upgrade of an endpoint is in progress, or when the endpoint is already
/// connected over the medium, or not connected at all, or when the medium would tear
/// down the local network, nothing is offered.
pub proof fn lemma_nothing_offered(
    a: BwuView,
    client: ClientView,
    endpoint_id: Seq<char>,
    medium: Medium,
    offers: Seq<Offer>,
)
    requires
        ({
            ||| a.in_progress.contains(endpoint_id)
            ||| !a.channels.contains_key(endpoint_id)
            ||| a.channels[endpoint_id].medium == medium
            ||| !a.has_handler(medium)
            ||| a.tears_down_wifi_lan(medium)
        }),
    ensures
        ({
            let b = a.initiated(client, endpoint_id, medium, offers);
            &&& b.handlers == a.handlers
            &&& b.channels == a.channels
            &&& b.in_progress == a.in_progress
            &&& b.previous == a.previous
            &&& b.retry_delays == a.retry_delays
            &&& b.retired == a.retired
        }),
{
}

/// With no untried medium left, a retry is set to wait, unless the endpoint is connected
/// over the local network. Nothing is offered either way.
pub proof fn lemma_no_medium_left(
    a: BwuView,
    client: ClientView,
    endpoint_id: Seq<char>,
    mediums: Seq<Medium>,
    offers: Seq<Offer>,
)
    requires
        a.channels.contains_key(endpoint_id),
        a.best_medium(endpoint_id, mediums) is UnknownMedium,
    ensures
        ({
            let b = a.try_next(client, endpoint_id, mediums, offers);
            if a.channels[endpoint_id].medium is WifiLan {
                b == a
            } else {
                b == BwuView {
                    retry_delays: a.retry_delays.insert(endpoint_id, a.next_delay(endpoint_id)),
                    alarms: a.alarms.insert(endpoint_id, a.next_delay(endpoint_id)),
                    ..a
                }
            }
        }),
{
}

/// After a failure the first untried medium that has a handler is offered, and no retry
/// waits.
pub proof fn lemma_next_medium_offered(
    a: BwuView,
    client: ClientView,
    endpoint_id: Seq<char>,
    info: bwu::UpgradePathInfoView,
    offers: Seq<Offer>,
)
    requires
        a.channels.contains_key(endpoint_id),
        !a.medium_is_shared(),
        a.channels[endpoint_id].writes(offers[0].write).ok(),
        ({
            let next = a.first_available(
                model::untried(
                    client.endpoint(endpoint_id).upgrade_mediums,
                    model::info_medium(info),
                ),
            );
            &&& !(next is UnknownMedium)
            &&& next != a.channels[endpoint_id].medium
            &&& !a.tears_down_wifi_lan(next)
            &&& a.frame_offered(client, endpoint_id, next, offers[0]).len() > 0
        }),
    ensures
        ({
            let b = a.failed(client, endpoint_id, info, offers);
            let back = a.fall_back(endpoint_id).0;
            let next = a.first_available(
                model::untried(
                    client.endpoint(endpoint_id).upgrade_mediums,
                    model::info_medium(info),
                ),
            );
            &&& b.in_progress.contains(endpoint_id)
            &&& !b.alarms.contains_key(endpoint_id)
            &&& b.bwu_medium(endpoint_id) == next
            &&& b.handlers == back.handlers.insert(
                next,
                back.handlers[next].after(
                    BwuCall::Initialize {
                        client,
                        service_id: a.channels[endpoint_id].service_id,
                        endpoint_id,
                        frame: a.frame_offered(client, endpoint_id, next, offers[0]),
                    },
                ),
            )
        }),
{
    let back = a.fall_back(endpoint_id).0;
    let left = model::untried(
        client.endpoint(endpoint_id).upgrade_mediums,
        model::info_medium(info),
    );
    lemma_keeps_fall_back(a, endpoint_id);
    assert(back.channels == a.channels);
    assert(!back.in_progress.contains(endpoint_id));
    assert(back.bwu_medium(endpoint_id) is UnknownMedium);
    assert forall|m: Medium| back.handlers.contains_key(m) == #[trigger] a.handlers.contains_key(
        m,
    ) by {
        assert(back.handlers.dom().contains(m) == a.handlers.dom().contains(m));
    }
    lemma_first_available_same(a, back, left);
    lemma_first_available(a, left);
}

proof fn lemma_first_available_same(a: BwuView, b: BwuView, mediums: Seq<Medium>)
    requires
        forall|m: Medium| b.handlers.contains_key(m) == #[trigger] a.handlers.contains_key(m),
    ensures
        a.first_available(mediums) == b.first_available(mediums),
    decreases mediums.len(),
{
    if mediums.len() > 0 {
        lemma_first_available_same(a, b, mediums.drop_first());
    }
}

/// The medium that is chosen has a handler.
pub proof fn lemma_first_available(a: BwuView, mediums: Seq<Medium>)
    ensures
        a.first_available(mediums) is UnknownMedium || a.has_handler(a.first_available(mediums))
            && mediums.contains(a.first_available(mediums)),
    decreases mediums.len(),
{
    if mediums.len() > 0 {
        lemma_first_available(a, mediums.drop_first());
        if a.has_handler(mediums[0]) {
            assert(mediums.contains(mediums[0]));
        } else if mediums.drop_first().contains(a.first_available(mediums)) {
            let i = mediums.drop_first().index_of(a.first_available(mediums));
            assert(mediums[i + 1] == a.first_available(mediums));
        }
    }
}

/// Retries of an endpoint wait longer and longer, up to the limit.
pub proof fn lemma_delay_grows(a: BwuView, endpoint_id: Seq<char>)
    requires
        retries_sound(a),
        a.config.initial_delay() <= a.config.max_delay(),
        a.retry_delays.contains_key(endpoint_id),
    ensures
        a.retry_delays[endpoint_id] <= a.next_delay(endpoint_id) <= a.config.max_delay(),
        a.next_delay(endpoint_id) == a.retry_delays[endpoint_id] ==> a.next_delay(endpoint_id)
            == a.config.max_delay() || a.config.initial_delay() == 0,
        a.schedule(endpoint_id).alarms[endpoint_id] == a.next_delay(endpoint_id),
{
}

} // verus!

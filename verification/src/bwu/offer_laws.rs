//! What comes of offering a medium: what the peer is sent, what happens when that fails,
//! and when it is tried again.

use vstd::prelude::*;

use crate::bwu::channel::ChannelEvent;
use crate::bwu::client::ClientView;
use crate::bwu::exchange;
use crate::bwu::handler::BwuCall;
use crate::bwu::laws;
use crate::bwu::model;
use crate::bwu::model::{BwuView, Offer, Outcomes};
use crate::bwu::service_id;
use crate::frames;
use crate::frames::Exception;
use crate::mediums::Medium;
use crate::proto::bandwidth_upgrade_negotiation_frame as bwu;
use crate::text;

verus! {

// ---------------------------------------------------------------------------
// Choosing a medium
// ---------------------------------------------------------------------------

/// The medium of the upgrade of an endpoint is its own, where each has one, and the common
/// one, where one serves all. What is set for one endpoint is what it has, and nothing else
/// changes; where each has its own, no other endpoint is touched.
pub proof fn lemma_upgrade_medium(
    a: BwuView,
    endpoint_id: Seq<char>,
    medium: Medium,
    other: Seq<char>,
)
    requires
        other != endpoint_id,
    ensures
        a.config.support_multiple_bwu_mediums ==> a.bwu_medium(endpoint_id) == (
        if a.mediums.contains_key(endpoint_id) {
            a.mediums[endpoint_id]
        } else {
            Medium::UnknownMedium
        }),
        !a.config.support_multiple_bwu_mediums ==> a.bwu_medium(endpoint_id) == a.medium,
        ({
            let b = a.with_bwu_medium(endpoint_id, medium);
            &&& exchange::differs_in_mediums(a, b)
            &&& b.handlers == a.handlers
            &&& b.bwu_medium(endpoint_id) == medium
            &&& b.bwu_medium(other) == (if a.config.support_multiple_bwu_mediums {
                a.bwu_medium(other)
            } else {
                medium
            })
        }),
{
}

/// What is left to try after a medium is what comes after its first place in the list, and
/// nothing if it is not in the list.
pub proof fn lemma_untried(mediums: Seq<Medium>, tried: Medium, i: int)
    requires
        0 <= i <= mediums.len(),
        i < mediums.len() ==> mediums[i] == tried,
        forall|j: int| 0 <= j < i ==> #[trigger] mediums[j] != tried,
    ensures
        model::untried(mediums, tried) == (if i < mediums.len() {
            mediums.skip(i + 1)
        } else {
            Seq::empty()
        }),
    decreases mediums.len(),
{
    if mediums.len() == 0 {
        assert(mediums =~= Seq::empty());
    } else if i == 0 {
        assert(mediums.drop_first() =~= mediums.skip(1));
    } else {
        let rest = mediums.drop_first();
        assert(mediums[0] != tried);
        assert forall|j: int| 0 <= j < i - 1 implies #[trigger] rest[j] != tried by {
            assert(mediums[j + 1] != tried);
        }
        lemma_untried(rest, tried, i - 1);
        if i < mediums.len() {
            assert(rest.skip(i) =~= mediums.skip(i + 1));
        }
    }
}

/// The medium can be set up.
pub open spec fn is_available(a: BwuView, medium: Medium) -> bool {
    medium != Medium::UnknownMedium && a.handlers.contains_key(medium)
}

/// The best medium of a list is its first one that can be set up, and there is none if none
/// can, for an upgrade that has no medium yet. One that has a medium keeps it.
pub proof fn lemma_best_medium(
    a: BwuView,
    endpoint_id: Seq<char>,
    mediums: Seq<Medium>,
    i: int,
)
    requires
        0 <= i <= mediums.len(),
        i < mediums.len() ==> is_available(a, mediums[i]),
        forall|j: int| 0 <= j < i ==> !is_available(a, #[trigger] mediums[j]),
    ensures
        a.first_available(mediums) == (if i < mediums.len() {
            mediums[i]
        } else {
            Medium::UnknownMedium
        }),
        a.bwu_medium(endpoint_id) == Medium::UnknownMedium ==> a.best_medium(endpoint_id, mediums)
            == a.first_available(mediums),
        a.bwu_medium(endpoint_id) != Medium::UnknownMedium ==> a.best_medium(endpoint_id, mediums)
            == (if mediums.contains(a.bwu_medium(endpoint_id)) && is_available(
            a,
            a.bwu_medium(endpoint_id),
        ) {
            a.bwu_medium(endpoint_id)
        } else {
            Medium::UnknownMedium
        }),
    decreases mediums.len(),
{
    if mediums.len() > 0 && i > 0 {
        let rest = mediums.drop_first();
        assert(!is_available(a, mediums[0]));
        assert forall|j: int| 0 <= j < i - 1 implies !is_available(a, #[trigger] rest[j]) by {
            assert(!is_available(a, mediums[j + 1]));
        }
        lemma_best_medium(a, endpoint_id, rest, i - 1);
    }
}

// ---------------------------------------------------------------------------
// Waiting
// ---------------------------------------------------------------------------

/// The first retry waits as long as is configured. Each further one waits twice as long as
/// the one before, or as much longer as the first one waited, and never longer than the
/// limit.
pub proof fn lemma_next_delay(a: BwuView, endpoint_id: Seq<char>)
    ensures
        ({
            let c = a.config;
            let delay = a.next_delay(endpoint_id) as int;
            let last = a.retry_delays[endpoint_id] as int;
            if !a.retry_delays.contains_key(endpoint_id) {
                delay == (if c.use_exp_backoff_in_bwu_retry {
                    c.exp_backoff_initial_delay_millis
                } else {
                    c.linear_initial_delay_millis
                })
            } else if c.use_exp_backoff_in_bwu_retry {
                if 2 * last <= c.exp_backoff_max_delay_millis {
                    delay == 2 * last
                } else {
                    delay == c.exp_backoff_max_delay_millis
                }
            } else {
                if last + c.linear_initial_delay_millis <= c.linear_max_delay_millis {
                    delay == last + c.linear_initial_delay_millis
                } else {
                    delay == c.linear_max_delay_millis
                }
            }
        }),
{
}

/// A retry waits: nothing differs but its delay, which is the next one.
pub open spec fn waits(a: BwuView, b: BwuView, endpoint_id: Seq<char>) -> bool {
    b == BwuView {
        retry_delays: a.retry_delays.insert(endpoint_id, a.next_delay(endpoint_id)),
        alarms: a.alarms.insert(endpoint_id, a.next_delay(endpoint_id)),
        ..a
    }
}

// ---------------------------------------------------------------------------
// Offering
// ---------------------------------------------------------------------------

/// The frame with which the handler of a medium offers it.
pub open spec fn frame_for(
    a: BwuView,
    client: ClientView,
    endpoint_id: Seq<char>,
    medium: Medium,
    offer: Offer,
) -> Seq<u8> {
    match (a.handlers[medium].replies.offer)(
        client,
        a.channels[endpoint_id].service_id,
        endpoint_id,
    ) {
        Some(known) => known,
        None => offer.frame,
    }
}

/// A medium may be offered to an endpoint: the endpoint is connected over another one, no
/// upgrade of it is in progress, the medium can be set up, and that does not tear down the
/// local network.
pub open spec fn may_offer(a: BwuView, endpoint_id: Seq<char>, medium: Medium) -> bool {
    &&& a.channels.contains_key(endpoint_id)
    &&& a.channels[endpoint_id].medium != medium
    &&& !a.in_progress.contains(endpoint_id)
    &&& is_available(a, medium)
    &&& medium == Medium::WifiHotspot || medium == Medium::WifiDirect ==> forall|k: Seq<char>|
        #[trigger]
        a.channels.contains_key(k) ==> a.channels[k].medium != Medium::WifiLan
}

/// The handler of the medium was asked for an offer, for the service of the endpoint's
/// channel, and gave `frame`.
pub open spec fn asked_for_offer(
    a: BwuView,
    client: ClientView,
    endpoint_id: Seq<char>,
    frame: Seq<u8>,
) -> BwuCall {
    BwuCall::Initialize {
        client,
        service_id: a.channels[endpoint_id].service_id,
        endpoint_id,
        frame,
    }
}

/// What was offered is in progress: the frame of the handler was written to the channel
/// that the endpoint has, and nothing else was; the upgrade is in progress over the medium;
/// no retry waits.
pub open spec fn is_offered(
    a: BwuView,
    b: BwuView,
    client: ClientView,
    endpoint_id: Seq<char>,
    medium: Medium,
    frame: Seq<u8>,
) -> bool {
    &&& b.channels.dom() == a.channels.dom()
    &&& b.channels[endpoint_id].medium == a.channels[endpoint_id].medium
    &&& b.channels[endpoint_id].history == a.channels[endpoint_id].history.push(
        ChannelEvent::Write(frame, Exception::Success),
    )
    &&& b.in_progress == a.in_progress.insert(endpoint_id)
    &&& b.bwu_medium(endpoint_id) == medium
    &&& b.alarms == a.alarms.remove(endpoint_id)
    &&& b.retry_delays == a.retry_delays
    &&& b.previous == a.previous
    &&& b.early == a.early
    &&& b.retired == a.retired
    &&& b.handovers == a.handovers
    &&& b.config == a.config
}

/// To start an upgrade offers the medium to the peer.
pub proof fn lemma_started(
    a: BwuView,
    client: ClientView,
    endpoint_id: Seq<char>,
    medium: Medium,
    offers: Seq<Offer>,
)
    requires
        may_offer(a, endpoint_id, medium),
        frame_for(a, client, endpoint_id, medium, offers[0]).len() > 0,
        a.channels[endpoint_id].writes(offers[0].write) == Exception::Success,
    ensures
        ({
            let b = a.initiated(client, endpoint_id, medium, offers);
            let frame = frame_for(a, client, endpoint_id, medium, offers[0]);
            &&& is_offered(a, b, client, endpoint_id, medium, frame)
            &&& exchange::one_more_call(
                a,
                b,
                medium,
                asked_for_offer(a, client, endpoint_id, frame),
            )
        }),
{
    let b = a.initiated(client, endpoint_id, medium, offers);
    assert(!a.tears_down_wifi_lan(medium));
    assert(b.channels.dom() =~= a.channels.dom());
    assert(b.handlers.dom() =~= a.handlers.dom());
}

/// Where a medium may not be offered, nothing is sent and no handler is called. The medium
/// is kept in mind for the endpoint, unless it would tear down the local network.
pub proof fn lemma_not_started(
    a: BwuView,
    client: ClientView,
    endpoint_id: Seq<char>,
    medium: Medium,
    offers: Seq<Offer>,
)
    requires
        !may_offer(a, endpoint_id, medium),
    ensures
        ({
            let b = a.initiated(client, endpoint_id, medium, offers);
            let torn_down = (medium == Medium::WifiHotspot || medium == Medium::WifiDirect)
                && exists|k: Seq<char>| #[trigger]
                a.channels.contains_key(k) && a.channels[k].medium == Medium::WifiLan;
            &&& b.channels == a.channels
            &&& b.handlers == a.handlers
            &&& b.in_progress == a.in_progress
            &&& b.previous == a.previous
            &&& b.early == a.early
            &&& b.retry_delays == a.retry_delays
            &&& b.retired == a.retired
            &&& torn_down ==> b == a
            &&& !torn_down ==> b.bwu_medium(endpoint_id) == medium
            &&& !torn_down && (!is_available(a, medium) || a.in_progress.contains(endpoint_id))
                ==> b.alarms == a.alarms
            &&& !torn_down && is_available(a, medium) && !a.in_progress.contains(endpoint_id)
                ==> b.alarms == a.alarms.remove(endpoint_id)
        }),
{
}

// ---------------------------------------------------------------------------
// Failing
// ---------------------------------------------------------------------------

/// A service id of the side that offers: not empty, and without the postfix.
pub open spec fn is_plain(service_id: Seq<char>) -> bool {
    service_id.len() > 0 && !text::ends_in(service_id, "_UPGRADE"@)
}

/// A failure of the medium that was offered to an endpoint ends the upgrade. The medium is
/// given up: where each endpoint has its own, its handler reverts what it did for the
/// endpoint, under the service id with the postfix; where one serves all, everything.
/// Where one medium serves several endpoints, it stays.
pub proof fn lemma_fallen_back(a: BwuView, endpoint_id: Seq<char>, medium: Medium)
    requires
        a.channels.contains_key(endpoint_id),
        is_plain(a.channels[endpoint_id].service_id),
        a.bwu_medium(endpoint_id) == medium,
        is_available(a, medium),
    ensures
        ({
            let (b, goes_on) = a.fall_back(endpoint_id);
            let several = a.config.support_multiple_bwu_mediums;
            let shared = !several && a.channels.dom().len() > 1;
            &&& goes_on == !shared
            &&& b.in_progress == a.in_progress.remove(endpoint_id)
            &&& b.channels == a.channels
            &&& b.previous == a.previous
            &&& b.early == a.early
            &&& b.alarms == a.alarms
            &&& b.retry_delays == a.retry_delays
            &&& b.retired == a.retired
            &&& shared ==> b.bwu_medium(endpoint_id) == medium && b.handlers == a.handlers
            &&& !shared ==> b.bwu_medium(endpoint_id) == Medium::UnknownMedium
            &&& several ==> exchange::one_more_call(
                a,
                b,
                medium,
                BwuCall::RevertEndpoint {
                    upgrade_service_id: a.channels[endpoint_id].service_id + "_UPGRADE"@,
                    endpoint_id,
                },
            )
            &&& !several && !shared ==> exchange::one_more_call(a, b, medium, BwuCall::RevertAll)
        }),
{
    reveal_strlit("_UPGRADE");
    let plain = a.channels[endpoint_id].service_id;
    let upgrade_service_id = plain + "_UPGRADE"@;
    assert(service_id::wrapped(plain) == upgrade_service_id);
    assert(text::ends_in(upgrade_service_id, "_UPGRADE"@)) by {
        let n = upgrade_service_id.len() - "_UPGRADE"@.len();
        assert(upgrade_service_id.subrange(n, upgrade_service_id.len() as int) =~= "_UPGRADE"@);
    }
    let stopped = BwuView { in_progress: a.in_progress.remove(endpoint_id), ..a };
    let other = endpoint_id.push('x');
    assert(other.len() != endpoint_id.len());
    exchange::lemma_medium_given_up(stopped, upgrade_service_id, endpoint_id, medium, other);
}

/// The failure of a medium is followed by an offer of the first one after it, in the list
/// of the endpoint, that can be set up. Which medium failed is what the peer names, whatever
/// medium the upgrade has.
pub proof fn lemma_next_offered(
    a: BwuView,
    client: ClientView,
    endpoint_id: Seq<char>,
    current: Medium,
    medium: Medium,
    info: bwu::UpgradePathInfoView,
    tried: int,
    next: int,
    offers: Seq<Offer>,
)
    requires
        client.endpoints.contains_key(endpoint_id),
        ({
            let mediums = client.endpoints[endpoint_id].upgrade_mediums;
            &&& 0 <= tried < next < mediums.len()
            &&& mediums[tried] == medium
            &&& forall|j: int| 0 <= j < tried ==> #[trigger] mediums[j] != medium
            &&& forall|j: int| tried < j < next ==> !is_available(a, #[trigger] mediums[j])
            &&& may_offer(
                BwuView { in_progress: a.in_progress.remove(endpoint_id), ..a },
                endpoint_id,
                mediums[next],
            )
            &&& frame_for(a, client, endpoint_id, mediums[next], offers[0]).len() > 0
        }),
        exchange::names(info, medium),
        a.bwu_medium(endpoint_id) == current,
        is_available(a, current),
        is_plain(a.channels[endpoint_id].service_id),
        a.config.support_multiple_bwu_mediums || a.channels.dom().len() <= 1,
        a.channels[endpoint_id].writes(offers[0].write) == Exception::Success,
    ensures
        ({
            let b = a.failed(client, endpoint_id, info, offers);
            let chosen = client.endpoints[endpoint_id].upgrade_mediums[next];
            let frame = frame_for(a, client, endpoint_id, chosen, offers[0]);
            let calls = b.handlers[chosen].calls;
            &&& is_offered(
                BwuView { in_progress: a.in_progress.remove(endpoint_id), ..a },
                b,
                client,
                endpoint_id,
                chosen,
                frame,
            )
            &&& calls.len() > 0
            &&& calls.last() == asked_for_offer(a, client, endpoint_id, frame)
            &&& chosen != current ==> calls.drop_last() == a.handlers[chosen].calls
        }),
{
    let mediums = client.endpoints[endpoint_id].upgrade_mediums;
    let chosen = mediums[next];
    lemma_untried(mediums, medium, tried);
    let left = mediums.skip(tried + 1);
    lemma_fallen_back(a, endpoint_id, current);
    let (back, goes_on) = a.fall_back(endpoint_id);
    assert(goes_on);
    assert forall|m: Medium| is_available(back, m) == is_available(a, m) by {
        assert(back.handlers.dom().contains(m) == a.handlers.dom().contains(m));
    }
    assert forall|j: int| 0 <= j < next - tried - 1 implies !is_available(
        back,
        #[trigger] left[j],
    ) by {
        assert(!is_available(a, mediums[tried + 1 + j]));
    }
    assert(left[next - tried - 1] == chosen);
    lemma_best_medium(back, endpoint_id, left, next - tried - 1);
    assert(model::info_medium(info) == medium);
    assert(client.endpoint(endpoint_id).upgrade_mediums == mediums);
    lemma_reply_kept(a, back, chosen, current);
    assert(frame_for(back, client, endpoint_id, chosen, offers[0]) == frame_for(
        a,
        client,
        endpoint_id,
        chosen,
        offers[0],
    ));
    assert(may_offer(back, endpoint_id, chosen));
    lemma_started(back, client, endpoint_id, chosen, offers);
    let b = a.failed(client, endpoint_id, info, offers);
    assert(back.attempt(client, endpoint_id, chosen, offers[0]).1 == false);
    assert(b == back.initiated(client, endpoint_id, chosen, offers));
    assert(a.in_progress.remove(endpoint_id) =~= back.in_progress);
    let frame = frame_for(a, client, endpoint_id, chosen, offers[0]);
    assert(b.handlers[chosen].calls.drop_last() =~= back.handlers[chosen].calls);
}

proof fn lemma_reply_kept(a: BwuView, b: BwuView, chosen: Medium, medium: Medium)
    requires
        a.handlers.contains_key(chosen),
        b.handlers == a.handlers || exists|call: BwuCall| exchange::one_more_call(a, b, medium, call),
    ensures
        b.handlers[chosen].replies == a.handlers[chosen].replies,
        chosen != medium ==> b.handlers[chosen] == a.handlers[chosen],
{
}

/// Where no medium is left after the one that failed, a retry waits, unless the endpoint is
/// connected over the local network: there is nothing better to wait for. Nothing is sent.
pub proof fn lemma_nothing_left(
    a: BwuView,
    client: ClientView,
    endpoint_id: Seq<char>,
    current: Medium,
    medium: Medium,
    info: bwu::UpgradePathInfoView,
    tried: int,
    offers: Seq<Offer>,
)
    requires
        client.endpoints.contains_key(endpoint_id),
        ({
            let mediums = client.endpoints[endpoint_id].upgrade_mediums;
            &&& 0 <= tried <= mediums.len()
            &&& tried < mediums.len() ==> mediums[tried] == medium
            &&& forall|j: int| 0 <= j < tried ==> #[trigger] mediums[j] != medium
            &&& forall|j: int|
                tried < j < mediums.len() ==> !is_available(a, #[trigger] mediums[j])
        }),
        exchange::names(info, medium),
        a.bwu_medium(endpoint_id) == current,
        is_available(a, current),
        a.channels.contains_key(endpoint_id),
        is_plain(a.channels[endpoint_id].service_id),
        a.config.support_multiple_bwu_mediums || a.channels.dom().len() <= 1,
    ensures
        ({
            let b = a.failed(client, endpoint_id, info, offers);
            let back = a.fall_back(endpoint_id).0;
            &&& if a.channels[endpoint_id].medium == Medium::WifiLan {
                b == back
            } else {
                waits(back, b, endpoint_id)
            }
            &&& !b.in_progress.contains(endpoint_id)
            &&& b.bwu_medium(endpoint_id) == Medium::UnknownMedium
            &&& b.channels == a.channels
        }),
{
    let mediums = client.endpoints[endpoint_id].upgrade_mediums;
    lemma_untried(mediums, medium, tried);
    lemma_fallen_back(a, endpoint_id, current);
    let (back, goes_on) = a.fall_back(endpoint_id);
    let left = model::untried(mediums, medium);
    assert forall|m: Medium| is_available(back, m) == is_available(a, m) by {
        assert(back.handlers.dom().contains(m) == a.handlers.dom().contains(m));
    }
    assert forall|j: int| 0 <= j < left.len() implies !is_available(back, #[trigger] left[j]) by {
        assert(!is_available(a, mediums[tried + 1 + j]));
    }
    lemma_best_medium(back, endpoint_id, left, left.len() as int);
    assert(model::info_medium(info) == medium);
    assert(client.endpoint(endpoint_id).upgrade_mediums == mediums);
}

/// An upgrade that has no medium, or one without a handler, ends without a handler being
/// called, and an endpoint without a channel is reverted under the id that stands for an
/// unknown service.
pub proof fn lemma_fallen_back_quietly(a: BwuView, endpoint_id: Seq<char>)
    requires
        a.config.support_multiple_bwu_mediums,
    ensures
        ({
            let (b, goes_on) = a.fall_back(endpoint_id);
            let medium = a.bwu_medium(endpoint_id);
            &&& goes_on
            &&& b.in_progress == a.in_progress.remove(endpoint_id)
            &&& b.channels == a.channels
            &&& b.bwu_medium(endpoint_id) == Medium::UnknownMedium
            &&& !is_available(a, medium) ==> b.handlers == a.handlers
            &&& is_available(a, medium) && !a.channels.contains_key(endpoint_id)
                ==> exchange::one_more_call(
                a,
                b,
                medium,
                BwuCall::RevertEndpoint {
                    upgrade_service_id: "UNKNOWN_SERVICE_UPGRADE"@,
                    endpoint_id,
                },
            )
        }),
{
    reveal_strlit("_UPGRADE");
    reveal_strlit("UNKNOWN_SERVICE");
    reveal_strlit("UNKNOWN_SERVICE_UPGRADE");
    let unknown = "UNKNOWN_SERVICE"@;
    let upgrade_service_id = "UNKNOWN_SERVICE_UPGRADE"@;
    assert(unknown + "_UPGRADE"@ =~= upgrade_service_id);
    assert(!text::ends_in(unknown, "_UPGRADE"@)) by {
        if text::ends_in(unknown, "_UPGRADE"@) {
            assert(unknown.subrange(7, 15)[1] == "_UPGRADE"@[1]);
        }
    }
    service_id::lemma_postfix(unknown);
    assert(text::ends_in(upgrade_service_id, "_UPGRADE"@)) by {
        assert(upgrade_service_id.subrange(15, 23) =~= "_UPGRADE"@);
    }
    let stopped = BwuView { in_progress: a.in_progress.remove(endpoint_id), ..a };
    let medium = a.bwu_medium(endpoint_id);
    let other = endpoint_id.push('x');
    assert(other.len() != endpoint_id.len());
    exchange::lemma_medium_given_up(stopped, upgrade_service_id, endpoint_id, medium, other);
    let own = service_id::wrapped(a.channels[endpoint_id].service_id);
    exchange::lemma_medium_given_up(stopped, own, endpoint_id, medium, other);
}

/// The handler of a medium has nothing to offer to an endpoint.
pub open spec fn offers_nothing(
    a: BwuView,
    client: ClientView,
    endpoint_id: Seq<char>,
    medium: Medium,
) -> bool {
    (a.handlers[medium].replies.offer)(client, a.channels[endpoint_id].service_id, endpoint_id)
        == Some(Seq::<u8>::empty())
}

/// The handler of a medium has `frame` to offer to an endpoint.
pub open spec fn offers_frame(
    a: BwuView,
    client: ClientView,
    endpoint_id: Seq<char>,
    medium: Medium,
    frame: Seq<u8>,
) -> bool {
    frame.len() > 0 && (a.handlers[medium].replies.offer)(
        client,
        a.channels[endpoint_id].service_id,
        endpoint_id,
    ) == Some(frame)
}

/// The mediums of a list are ones to which the endpoint is not connected, each once, and
/// none is BLE L2CAP, which an upgrade path cannot name. No endpoint is connected over the
/// local network.
pub open spec fn worth_trying(a: BwuView, endpoint_id: Seq<char>, mediums: Seq<Medium>) -> bool {
    &&& mediums.no_duplicates()
    &&& forall|j: int|
        0 <= j < mediums.len() ==> #[trigger] mediums[j] != a.channels[endpoint_id].medium
            && mediums[j] != Medium::BleL2cap
    &&& forall|k: Seq<char>| #[trigger]
        a.channels.contains_key(k) ==> a.channels[k].medium != Medium::WifiLan
}

/// The first medium of a list that can be set up.
proof fn first_of(a: BwuView, mediums: Seq<Medium>) -> (i: int)
    ensures
        0 <= i <= mediums.len(),
        i < mediums.len() ==> is_available(a, mediums[i]),
        forall|j: int| 0 <= j < i ==> !is_available(a, #[trigger] mediums[j]),
    decreases mediums.len(),
{
    if mediums.len() == 0 {
        0
    } else if is_available(a, mediums[0]) {
        0
    } else {
        let rest = mediums.drop_first();
        let i = first_of(a, rest);
        assert forall|j: int| 0 <= j < i + 1 implies !is_available(a, #[trigger] mediums[j]) by {
            if j > 0 {
                assert(!is_available(a, rest[j - 1]));
            }
        }
        i + 1
    }
}

/// The mediums are tried in the order of the list, each once, until one can be offered:
/// those before it were asked and reverted, it is offered and in progress, and those after
/// it are left alone. If none can be offered, a retry waits.
pub proof fn lemma_tried_in_order(
    a: BwuView,
    client: ClientView,
    endpoint_id: Seq<char>,
    mediums: Seq<Medium>,
    k: int,
    frame: Seq<u8>,
    offers: Seq<Offer>,
)
    requires
        a.config.support_multiple_bwu_mediums,
        a.channels.contains_key(endpoint_id),
        is_plain(a.channels[endpoint_id].service_id),
        a.channels[endpoint_id].replies.write == Some(Exception::Success),
        !a.in_progress.contains(endpoint_id),
        a.bwu_medium(endpoint_id) == Medium::UnknownMedium,
        worth_trying(a, endpoint_id, mediums),
        0 <= k <= mediums.len(),
        forall|j: int|
            0 <= j < k ==> !is_available(a, #[trigger] mediums[j]) || offers_nothing(
                a,
                client,
                endpoint_id,
                mediums[j],
            ),
        k < mediums.len() ==> is_available(a, mediums[k]) && offers_frame(
            a,
            client,
            endpoint_id,
            mediums[k],
            frame,
        ),
    ensures
        ({
            let b = a.try_next(client, endpoint_id, mediums, offers);
            &&& if k < mediums.len() {
                &&& b.in_progress.contains(endpoint_id)
                &&& b.bwu_medium(endpoint_id) == mediums[k]
                &&& b.channels == a.channels.insert(
                    endpoint_id,
                    a.channels[endpoint_id].after(
                        ChannelEvent::Write(frame, Exception::Success),
                    ),
                )
                &&& !b.alarms.contains_key(endpoint_id)
                &&& b.handlers[mediums[k]].calls == a.handlers[mediums[k]].calls.push(
                    asked_for_offer(a, client, endpoint_id, frame),
                )
            } else {
                &&& !b.in_progress.contains(endpoint_id)
                &&& b.bwu_medium(endpoint_id) == Medium::UnknownMedium
                &&& b.channels == a.channels
                &&& b.alarms.contains_key(endpoint_id)
                &&& b.alarms[endpoint_id] == a.next_delay(endpoint_id)
            }
            &&& forall|j: int|
                0 <= j < k && is_available(a, #[trigger] mediums[j])
                    ==> b.handlers[mediums[j]].calls == a.handlers[mediums[j]].calls.push(
                    asked_for_offer(a, client, endpoint_id, Seq::empty()),
                ).push(
                    BwuCall::RevertEndpoint {
                        upgrade_service_id: a.channels[endpoint_id].service_id + "_UPGRADE"@,
                        endpoint_id,
                    },
                )
            &&& forall|m: Medium|
                is_available(a, m) && !mediums.take(k).contains(m) && (k < mediums.len() ==> m
                    != mediums[k]) ==> #[trigger] b.handlers[m] == a.handlers[m]
        }),
    decreases mediums.len(),
{
    let b = a.try_next(client, endpoint_id, mediums, offers);
    let i = first_of(a, mediums);
    lemma_best_medium(a, endpoint_id, mediums, i);
    if i < mediums.len() {
        assert(i <= k) by {
            if k < i {
                assert(!is_available(a, mediums[k]));
            }
        }
        let next = mediums[i];
        assert(next != a.channels[endpoint_id].medium);
        assert(!a.tears_down_wifi_lan(next));
        if i == k {
            lemma_started(a, client, endpoint_id, next, offers);
            assert(b == a.initiated(client, endpoint_id, next, offers));
            assert(b.channels =~= a.channels.insert(
                endpoint_id,
                a.channels[endpoint_id].after(ChannelEvent::Write(frame, Exception::Success)),
            ));
        } else {
            lemma_one_tried(a, client, endpoint_id, mediums, i, offers);
            let c = a.attempt(client, endpoint_id, next, offers[0]).0.fall_back(endpoint_id).0;
            let rest = mediums.skip(i + 1);
            assert forall|x: int, y: int| 0 <= x < rest.len() && 0 <= y < rest.len() && x
                != y implies rest[x] != rest[y] by {
                assert(mediums[x + i + 1] != mediums[y + i + 1]);
            }
            assert forall|j: int| 0 <= j < rest.len() implies #[trigger] rest[j]
                != c.channels[endpoint_id].medium && rest[j] != Medium::BleL2cap && rest[j]
                != next by {
                assert(mediums[j + i + 1] != mediums[i]);
            }
            assert forall|j: int| 0 <= j < k - i - 1 implies !is_available(c, #[trigger] rest[j])
                || offers_nothing(c, client, endpoint_id, rest[j]) by {
                assert(mediums[j + i + 1] == rest[j]);
                assert(is_available(c, rest[j]) == is_available(a, rest[j]));
            }
            if k < mediums.len() {
                assert(rest[k - i - 1] == mediums[k]);
                assert(is_available(c, mediums[k]));
            }
            lemma_tried_in_order(
                c,
                client,
                endpoint_id,
                rest,
                k - i - 1,
                frame,
                offers.drop_first(),
            );
            assert(b == c.try_next(client, endpoint_id, rest, offers.drop_first()));
            let calls = a.handlers[next].calls.push(
                asked_for_offer(a, client, endpoint_id, Seq::empty()),
            ).push(
                BwuCall::RevertEndpoint {
                    upgrade_service_id: a.channels[endpoint_id].service_id + "_UPGRADE"@,
                    endpoint_id,
                },
            );
            assert(!rest.take(k - i - 1).contains(next)) by {
                if rest.take(k - i - 1).contains(next) {
                    let x = rest.take(k - i - 1).index_of(next);
                    assert(rest[x] == next);
                }
            }
            assert(is_available(c, next));
            assert(b.handlers[next] == c.handlers[next]);
            assert forall|j: int| 0 <= j < k && is_available(
                a,
                #[trigger] mediums[j],
            ) implies b.handlers[mediums[j]].calls == a.handlers[mediums[j]].calls.push(
                asked_for_offer(a, client, endpoint_id, Seq::empty()),
            ).push(
                BwuCall::RevertEndpoint {
                    upgrade_service_id: a.channels[endpoint_id].service_id + "_UPGRADE"@,
                    endpoint_id,
                },
            ) by {
                if j > i {
                    assert(rest[j - i - 1] == mediums[j]);
                    assert(mediums[j] != next);
                    assert(is_available(c, mediums[j]));
                    assert(c.handlers[mediums[j]] == a.handlers[mediums[j]]);
                }
            }
            assert forall|m: Medium|
                is_available(a, m) && !mediums.take(k).contains(m) && (k < mediums.len() ==> m
                    != mediums[k]) implies #[trigger] b.handlers[m] == a.handlers[m] by {
                assert(m != next) by {
                    assert(mediums.take(k)[i] == next);
                }
                assert(!rest.take(k - i - 1).contains(m)) by {
                    if rest.take(k - i - 1).contains(m) {
                        let x = rest.take(k - i - 1).index_of(m);
                        assert(mediums.take(k)[x + i + 1] == m);
                    }
                }
                assert(is_available(c, m));
                assert(c.handlers[m] == a.handlers[m]);
            }
        }
    } else {
        assert(k == mediums.len()) by {
            if k < mediums.len() {
                assert(!is_available(a, mediums[k]));
            }
        }
        assert forall|j: int| 0 <= j < k && is_available(a, #[trigger] mediums[j]) implies false by {
        }
    }
}

/// One medium was tried and has nothing to offer.
proof fn lemma_one_tried(
    a: BwuView,
    client: ClientView,
    endpoint_id: Seq<char>,
    mediums: Seq<Medium>,
    i: int,
    offers: Seq<Offer>,
)
    requires
        a.config.support_multiple_bwu_mediums,
        a.channels.contains_key(endpoint_id),
        is_plain(a.channels[endpoint_id].service_id),
        !a.in_progress.contains(endpoint_id),
        a.bwu_medium(endpoint_id) == Medium::UnknownMedium,
        worth_trying(a, endpoint_id, mediums),
        0 <= i < mediums.len(),
        is_available(a, mediums[i]),
        a.best_medium(endpoint_id, mediums) == mediums[i],
        offers_nothing(a, client, endpoint_id, mediums[i]),
    ensures
        ({
            let next = mediums[i];
            let (t, failed) = a.attempt(client, endpoint_id, next, offers[0]);
            let (c, goes_on) = t.fall_back(endpoint_id);
            &&& failed
            &&& goes_on
            &&& model::untried(mediums, model::info_medium(model::bare_path(next)))
                == mediums.skip(i + 1)
            &&& a.try_next(client, endpoint_id, mediums, offers) == c.try_next(
                client,
                endpoint_id,
                mediums.skip(i + 1),
                offers.drop_first(),
            )
            &&& c.config == a.config
            &&& c.channels == a.channels
            &&& !c.in_progress.contains(endpoint_id)
            &&& c.bwu_medium(endpoint_id) == Medium::UnknownMedium
            &&& c.retry_delays == a.retry_delays
            &&& c.handlers.dom() == a.handlers.dom()
            &&& forall|m: Medium| is_available(c, m) == #[trigger] is_available(a, m)
            &&& forall|m: Medium|
                is_available(a, m) ==> (#[trigger] c.handlers[m]).replies == a.handlers[m].replies
                    && (m != next ==> c.handlers[m] == a.handlers[m])
            &&& c.handlers[next].calls == a.handlers[next].calls.push(
                asked_for_offer(a, client, endpoint_id, Seq::empty()),
            ).push(
                BwuCall::RevertEndpoint {
                    upgrade_service_id: a.channels[endpoint_id].service_id + "_UPGRADE"@,
                    endpoint_id,
                },
            )
        }),
{
    let next = mediums[i];
    assert(next != a.channels[endpoint_id].medium && next != Medium::BleL2cap);
    assert(!a.tears_down_wifi_lan(next));
    let (t, failed) = a.attempt(client, endpoint_id, next, offers[0]);
    assert(failed);
    assert(t.handlers.dom() =~= a.handlers.dom());
    lemma_fallen_back(t, endpoint_id, next);
    let (c, goes_on) = t.fall_back(endpoint_id);
    assert(model::info_medium(model::bare_path(next)) == next);
    assert forall|j: int| 0 <= j < i implies #[trigger] mediums[j] != next by {}
    lemma_untried(mediums, next, i);
    assert(a.channels[endpoint_id].medium != Medium::WifiLan);
    assert forall|m: Medium| is_available(c, m) == #[trigger] is_available(a, m) by {
        assert(c.handlers.dom().contains(m) == a.handlers.dom().contains(m));
    }
    assert forall|m: Medium| is_available(a, m) implies (#[trigger] c.handlers[m]).replies
        == a.handlers[m].replies && (m != next ==> c.handlers[m] == a.handlers[m]) by {
        assert(t.handlers.dom().contains(m));
        assert(t.handlers.contains_key(m));
    }
}

/// The endpoint is connected over the best medium that there is: nothing is offered, and a
/// retry waits for a better one to come.
pub proof fn lemma_best_already(
    a: BwuView,
    client: ClientView,
    endpoint_id: Seq<char>,
    mediums: Seq<Medium>,
    i: int,
    offers: Seq<Offer>,
)
    requires
        a.channels.contains_key(endpoint_id),
        a.channels[endpoint_id].medium != Medium::WifiLan,
        a.bwu_medium(endpoint_id) == Medium::UnknownMedium,
        0 <= i < mediums.len(),
        mediums[i] == a.channels[endpoint_id].medium,
        is_available(a, mediums[i]),
        forall|j: int| 0 <= j < i ==> !is_available(a, #[trigger] mediums[j]),
    ensures
        waits(a, a.try_next(client, endpoint_id, mediums, offers), endpoint_id),
{
    lemma_best_medium(a, endpoint_id, mediums, i);
}

/// The endpoint is connected over the local network, and that is the best medium that there
/// is: nothing is offered, no handler is called, and no retry waits.
pub proof fn lemma_wifi_lan_is_enough(
    a: BwuView,
    client: ClientView,
    endpoint_id: Seq<char>,
    mediums: Seq<Medium>,
    i: int,
    offers: Seq<Offer>,
)
    requires
        a.channels.contains_key(endpoint_id),
        a.channels[endpoint_id].medium == Medium::WifiLan,
        a.bwu_medium(endpoint_id) == Medium::UnknownMedium,
        !a.in_progress.contains(endpoint_id),
        0 <= i < mediums.len(),
        mediums[i] == Medium::WifiLan,
        is_available(a, mediums[i]),
        forall|j: int| 0 <= j < i ==> !is_available(a, #[trigger] mediums[j]),
    ensures
        ({
            let b = a.try_next(client, endpoint_id, mediums, offers);
            &&& b.channels == a.channels
            &&& b.handlers == a.handlers
            &&& b.in_progress == a.in_progress
            &&& b.previous == a.previous
            &&& b.retry_delays == a.retry_delays
            &&& b.alarms == a.alarms.remove(endpoint_id)
            &&& b.bwu_medium(endpoint_id) == Medium::WifiLan
        }),
{
    lemma_best_medium(a, endpoint_id, mediums, i);
}

/// Where one medium serves several endpoints, a failure ends the upgrade of the endpoint
/// and nothing else: nothing is reverted, offered or waited for.
pub proof fn lemma_shared_medium_stays(
    a: BwuView,
    client: ClientView,
    endpoint_id: Seq<char>,
    info: bwu::UpgradePathInfoView,
    offers: Seq<Offer>,
)
    requires
        !a.config.support_multiple_bwu_mediums,
        a.channels.dom().len() > 1,
    ensures
        a.failed(client, endpoint_id, info, offers) == (BwuView {
            in_progress: a.in_progress.remove(endpoint_id),
            ..a
        }),
{
}

/// A medium that could not be set up, or whose offer could not be written, counts as one
/// that failed: it is given up after it was tried, and with nothing else to offer a retry
/// waits.
pub proof fn lemma_unoffered_retried(
    a: BwuView,
    client: ClientView,
    endpoint_id: Seq<char>,
    medium: Medium,
    tried: int,
    offers: Seq<Offer>,
)
    requires
        may_offer(a, endpoint_id, medium),
        frame_for(a, client, endpoint_id, medium, offers[0]).len() == 0
            || a.channels[endpoint_id].writes(offers[0].write) != Exception::Success,
        medium != Medium::BleL2cap,
        client.endpoints.contains_key(endpoint_id),
        ({
            let mediums = client.endpoints[endpoint_id].upgrade_mediums;
            &&& 0 <= tried <= mediums.len()
            &&& tried < mediums.len() ==> mediums[tried] == medium
            &&& forall|j: int| 0 <= j < tried ==> #[trigger] mediums[j] != medium
            &&& forall|j: int|
                tried < j < mediums.len() ==> !is_available(a, #[trigger] mediums[j])
        }),
        is_plain(a.channels[endpoint_id].service_id),
        a.config.support_multiple_bwu_mediums || a.channels.dom().len() <= 1,
        a.channels[endpoint_id].medium != Medium::WifiLan,
    ensures
        ({
            let b = a.initiated(client, endpoint_id, medium, offers);
            let frame = frame_for(a, client, endpoint_id, medium, offers[0]);
            let asked = a.handlers[medium].calls.push(
                asked_for_offer(a, client, endpoint_id, frame),
            );
            &&& !b.in_progress.contains(endpoint_id)
            &&& b.bwu_medium(endpoint_id) == Medium::UnknownMedium
            &&& b.alarms.contains_key(endpoint_id)
            &&& b.alarms[endpoint_id] == a.next_delay(endpoint_id)
            &&& b.retry_delays == a.retry_delays.insert(endpoint_id, a.next_delay(endpoint_id))
            &&& b.handlers[medium].calls == asked.push(
                if a.config.support_multiple_bwu_mediums {
                    BwuCall::RevertEndpoint {
                        upgrade_service_id: a.channels[endpoint_id].service_id + "_UPGRADE"@,
                        endpoint_id,
                    }
                } else {
                    BwuCall::RevertAll
                },
            )
            &&& b.previous == a.previous
            &&& b.retired == a.retired
            &&& frame.len() == 0 ==> b.channels == a.channels
            &&& frame.len() > 0 ==> b.channels == a.channels.insert(
                endpoint_id,
                a.channels[endpoint_id].after(
                    ChannelEvent::Write(frame, a.channels[endpoint_id].writes(offers[0].write)),
                ),
            )
        }),
{
    assert(!a.tears_down_wifi_lan(medium));
    let (c, failed) = a.attempt(client, endpoint_id, medium, offers[0]);
    assert(failed);
    let info = model::bare_path(medium);
    assert(exchange::names(info, medium));
    assert(c.channels.dom() =~= a.channels.dom());
    assert(c.handlers.dom() =~= a.handlers.dom());
    assert forall|m: Medium| is_available(c, m) == is_available(a, m) by {
        assert(c.handlers.dom().contains(m) == a.handlers.dom().contains(m));
    }
    lemma_nothing_left(
        c,
        client,
        endpoint_id,
        medium,
        medium,
        info,
        tried,
        offers.drop_first(),
    );
    lemma_fallen_back(c, endpoint_id, medium);
}

/// A failure that the peer tells of is taken as the failure of the path that it names.
pub proof fn lemma_failure_received(
    a: BwuView,
    client: ClientView,
    endpoint_id: Seq<char>,
    info: bwu::UpgradePathInfoView,
    o: Outcomes,
)
    requires
        client.endpoints.contains_key(endpoint_id),
        client.endpoints[endpoint_id].connected,
        frames::failure_bytes(info).len() <= u64::MAX,
    ensures
        ({
            &&& frames::parsed(frames::failure_bytes(info)) matches Ok(frame)
            &&& a.received(client, frame, endpoint_id, o) == (
                a.failed(client, endpoint_id, info, o.offers),
                client,
            )
        }),
{
    laws::lemma_refusal_received(a, client, info, endpoint_id, o);
}

// ---------------------------------------------------------------------------
// Retrying
// ---------------------------------------------------------------------------

/// A retry that is due goes through all mediums of the endpoint from the start: the first
/// one that can be set up is offered.
pub proof fn lemma_retry_offers(
    a: BwuView,
    client: ClientView,
    endpoint_id: Seq<char>,
    next: int,
    offers: Seq<Offer>,
)
    requires
        a.alarms.contains_key(endpoint_id),
        client.endpoints.contains_key(endpoint_id),
        client.endpoints[endpoint_id].connected,
        a.bwu_medium(endpoint_id) == Medium::UnknownMedium,
        ({
            let mediums = client.endpoints[endpoint_id].upgrade_mediums;
            &&& 0 <= next < mediums.len()
            &&& forall|j: int| 0 <= j < next ==> !is_available(a, #[trigger] mediums[j])
            &&& may_offer(a, endpoint_id, mediums[next])
            &&& frame_for(a, client, endpoint_id, mediums[next], offers[0]).len() > 0
        }),
        a.channels[endpoint_id].writes(offers[0].write) == Exception::Success,
    ensures
        ({
            let b = a.alarm_fired(client, endpoint_id, offers);
            let chosen = client.endpoints[endpoint_id].upgrade_mediums[next];
            let frame = frame_for(a, client, endpoint_id, chosen, offers[0]);
            &&& is_offered(a, b, client, endpoint_id, chosen, frame)
            &&& exchange::one_more_call(
                a,
                b,
                chosen,
                asked_for_offer(a, client, endpoint_id, frame),
            )
        }),
{
    let mediums = client.endpoints[endpoint_id].upgrade_mediums;
    let chosen = mediums[next];
    let awake = BwuView { alarms: a.alarms.remove(endpoint_id), ..a };
    lemma_best_medium(awake, endpoint_id, mediums, next);
    lemma_started(awake, client, endpoint_id, chosen, offers);
    assert(client.endpoint(endpoint_id).upgrade_mediums == mediums);
    assert(awake.attempt(client, endpoint_id, chosen, offers[0]).1 == false);
    assert(a.alarms.remove(endpoint_id).remove(endpoint_id) =~= a.alarms.remove(endpoint_id));
}

/// A retry that is due, and finds nothing that can be set up, waits again, for the next
/// delay. One of an endpoint that is no longer connected, or that waits for nothing, does
/// nothing more.
pub proof fn lemma_retry_waits(
    a: BwuView,
    client: ClientView,
    endpoint_id: Seq<char>,
    offers: Seq<Offer>,
)
    ensures
        ({
            let b = a.alarm_fired(client, endpoint_id, offers);
            let awake = BwuView { alarms: a.alarms.remove(endpoint_id), ..a };
            let known = client.endpoints.contains_key(endpoint_id);
            let e = client.endpoints[endpoint_id];
            &&& !a.alarms.contains_key(endpoint_id) ==> b == a
            &&& a.alarms.contains_key(endpoint_id) && !(known && e.connected) ==> b == awake
            &&& a.alarms.contains_key(endpoint_id) && known && e.connected && a.bwu_medium(
                endpoint_id,
            ) == Medium::UnknownMedium && (forall|j: int|
                0 <= j < e.upgrade_mediums.len() ==> !is_available(
                    a,
                    #[trigger] e.upgrade_mediums[j],
                )) ==> if a.channels.contains_key(endpoint_id) && a.channels[endpoint_id].medium
                == Medium::WifiLan {
                b == awake
            } else {
                waits(awake, b, endpoint_id)
            }
        }),
{
    let awake = BwuView { alarms: a.alarms.remove(endpoint_id), ..a };
    let e = client.endpoint(endpoint_id);
    if forall|j: int|
        0 <= j < e.upgrade_mediums.len() ==> !is_available(a, #[trigger] e.upgrade_mediums[j]) {
        assert forall|j: int| 0 <= j < e.upgrade_mediums.len() implies !is_available(
            awake,
            #[trigger] e.upgrade_mediums[j],
        ) by {
            assert(!is_available(a, e.upgrade_mediums[j]));
        }
        lemma_best_medium(awake, endpoint_id, e.upgrade_mediums, e.upgrade_mediums.len() as int);
    }
}

} // verus!

//! Handlers: what sets up and joins the medium of an upgrade.
//!
//! A [`MediumBwuHandler`] does what is particular to a medium. [`BaseBwuHandler`]
//! wraps one, keeps account of the endpoints that were upgraded for each service, and
//! offers the [`BwuHandler`] interface that the manager of upgrades works with.

use vstd::prelude::*;

use crate::bwu::channel::{ChannelView, EndpointChannel};
use crate::bwu::client::{ClientProxy, ClientView};
use crate::bwu::service_id;
use crate::bwu::service_id::{is_initiator_upgrade_service_id, wrap_initiator_upgrade_service_id};
use crate::bwu::str_map::StrMap;
use crate::mediums::Medium;
use crate::proto::bandwidth_upgrade_negotiation_frame::{UpgradePathInfo, UpgradePathInfoView};

verus! {

/// A channel that a peer has opened over the medium of an upgrade.
pub struct IncomingSocketConnection<C> {
    pub channel: C,
}

/// One call of a [`BwuHandler`], and what it gave.
pub enum BwuCall {
    Initialize { client: ClientView, service_id: Seq<char>, endpoint_id: Seq<char>, frame: Seq<u8> },
    RevertAll,
    RevertEndpoint { upgrade_service_id: Seq<char>, endpoint_id: Seq<char> },
    RevertResponder { service_id: Seq<char> },
    Create {
        client: ClientView,
        service_id: Seq<char>,
        endpoint_id: Seq<char>,
        info: UpgradePathInfoView,
        channel: Option<ChannelView>,
    },
    Disconnect { client: ClientView, endpoint_id: Seq<char> },
}

/// One call of a [`MediumBwuHandler`], and what it gave.
pub enum MediumCall {
    Initialize {
        client: ClientView,
        upgrade_service_id: Seq<char>,
        endpoint_id: Seq<char>,
        frame: Seq<u8>,
    },
    Revert { upgrade_service_id: Seq<char> },
    Create {
        client: ClientView,
        service_id: Seq<char>,
        endpoint_id: Seq<char>,
        info: UpgradePathInfoView,
        channel: Option<ChannelView>,
    },
    Disconnect { client: ClientView, endpoint_id: Seq<char> },
}

/// What is known beforehand of what a handler gives.
pub struct HandlerReplies {
    /// The offer for a client, a service id and an endpoint, if it is known.
    pub offer: spec_fn(ClientView, Seq<char>, Seq<char>) -> Option<Seq<u8>>,
    /// The channel for a client, a service id, an endpoint and the path of an offer, if it
    /// is known.
    pub channel: spec_fn(ClientView, Seq<char>, Seq<char>, UpgradePathInfoView) -> Option<
        Option<ChannelView>,
    >,
}

impl HandlerReplies {
    /// The offer: what is known of it, or else `frame`.
    pub open spec fn offers(
        self,
        client: ClientView,
        service_id: Seq<char>,
        endpoint_id: Seq<char>,
        frame: Seq<u8>,
    ) -> Seq<u8> {
        match (self.offer)(client, service_id, endpoint_id) {
            Some(known) => known,
            None => frame,
        }
    }

    /// The channel: what is known of it, or else `channel`.
    pub open spec fn creates(
        self,
        client: ClientView,
        service_id: Seq<char>,
        endpoint_id: Seq<char>,
        info: UpgradePathInfoView,
        channel: Option<ChannelView>,
    ) -> Option<ChannelView> {
        match (self.channel)(client, service_id, endpoint_id, info) {
            Some(known) => known,
            None => channel,
        }
    }

    /// What a handler gives whose medium is set up for wrapped service ids.
    pub open spec fn wrapped(self) -> HandlerReplies {
        HandlerReplies {
            offer: |client: ClientView, service_id: Seq<char>, endpoint_id: Seq<char>|
                (self.offer)(client, service_id::wrapped(service_id), endpoint_id),
            channel: self.channel,
        }
    }
}

/// What is known of a handler.
pub struct HandlerView {
    /// What it will give.
    pub replies: HandlerReplies,
    /// What holds of it whatever it is called with, if it says so of itself.
    pub sound: bool,
    /// The calls so far.
    pub calls: Seq<BwuCall>,
}

impl HandlerView {
    /// The handler after one more call.
    pub open spec fn after(self, call: BwuCall) -> HandlerView {
        HandlerView { calls: self.calls.push(call), ..self }
    }
}

/// What is known of a handler.
pub open spec fn view_of<C: EndpointChannel, B: BwuHandler<C>>(handler: B) -> HandlerView {
    HandlerView { replies: handler.replies(), sound: handler.sound(), calls: handler.calls() }
}

/// What is known of a channel, if there is one.
pub open spec fn channel_of<C: EndpointChannel>(c: Option<C>) -> Option<ChannelView> {
    match c {
        Some(c) => Some(c.channel()),
        None => None,
    }
}

/// What the manager of upgrades asks of a handler. What a call gives is up to the
/// handler, as far as it is not known beforehand; that it is recorded is not.
pub trait BwuHandler<C: EndpointChannel>: Sized {
    /// The calls so far.
    closed spec fn calls(&self) -> Seq<BwuCall> {
        arbitrary()
    }

    /// What the handler will give.
    closed spec fn replies(&self) -> HandlerReplies {
        arbitrary()
    }

    /// What the handler says of itself, and every call keeps.
    closed spec fn sound(&self) -> bool {
        arbitrary()
    }

    closed spec fn upgrade_medium(&self) -> Medium {
        arbitrary()
    }

    /// Sets up the medium, and gives the serialized offer of it; an empty one if the
    /// medium could not be set up.
    fn initialize_upgraded_medium_for_endpoint(
        &mut self,
        client: &ClientProxy,
        service_id: &str,
        endpoint_id: &str,
    ) -> (r: Vec<u8>)
        ensures
            r@ == old(self).replies().offers(client@, service_id@, endpoint_id@, r@),
            final(self).calls() == old(self).calls().push(
                BwuCall::Initialize {
                    client: client@,
                    service_id: service_id@,
                    endpoint_id: endpoint_id@,
                    frame: r@,
                },
            ),
            final(self).replies() == old(self).replies(),
            final(self).sound() == old(self).sound(),
            final(self).upgrade_medium() == old(self).upgrade_medium(),
    ;

    /// Reverts what was set up for every service.
    fn revert_initiator_state(&mut self)
        ensures
            final(self).calls() == old(self).calls().push(BwuCall::RevertAll),
            final(self).replies() == old(self).replies(),
            final(self).sound() == old(self).sound(),
            final(self).upgrade_medium() == old(self).upgrade_medium(),
    ;

    /// Reverts what was set up for one endpoint of a service.
    fn revert_initiator_state_for_endpoint(&mut self, upgrade_service_id: &str, endpoint_id: &str)
        ensures
            final(self).calls() == old(self).calls().push(
                BwuCall::RevertEndpoint {
                    upgrade_service_id: upgrade_service_id@,
                    endpoint_id: endpoint_id@,
                },
            ),
            final(self).replies() == old(self).replies(),
            final(self).sound() == old(self).sound(),
            final(self).upgrade_medium() == old(self).upgrade_medium(),
    ;

    /// Reverts what was joined for a service.
    fn revert_responder_state(&mut self, service_id: &str)
        ensures
            final(self).calls() == old(self).calls().push(
                BwuCall::RevertResponder { service_id: service_id@ },
            ),
            final(self).replies() == old(self).replies(),
            final(self).sound() == old(self).sound(),
            final(self).upgrade_medium() == old(self).upgrade_medium(),
    ;

    /// Joins the medium that a peer offers; `None` if that fails.
    fn create_upgraded_endpoint_channel(
        &mut self,
        client: &ClientProxy,
        service_id: &str,
        endpoint_id: &str,
        upgrade_path_info: &UpgradePathInfo,
    ) -> (r: Option<C>)
        ensures
            channel_of(r) == old(self).replies().creates(
                client@,
                service_id@,
                endpoint_id@,
                upgrade_path_info@,
                channel_of(r),
            ),
            final(self).calls() == old(self).calls().push(
                BwuCall::Create {
                    client: client@,
                    service_id: service_id@,
                    endpoint_id: endpoint_id@,
                    info: upgrade_path_info@,
                    channel: channel_of(r),
                },
            ),
            final(self).replies() == old(self).replies(),
            final(self).sound() == old(self).sound(),
            final(self).upgrade_medium() == old(self).upgrade_medium(),
    ;

    fn get_upgrade_medium(&self) -> (r: Medium)
        ensures
            r == self.upgrade_medium(),
    ;

    fn on_endpoint_disconnect(&mut self, client: &ClientProxy, endpoint_id: &str)
        ensures
            final(self).calls() == old(self).calls().push(
                BwuCall::Disconnect { client: client@, endpoint_id: endpoint_id@ },
            ),
            final(self).replies() == old(self).replies(),
            final(self).sound() == old(self).sound(),
            final(self).upgrade_medium() == old(self).upgrade_medium(),
    ;
}

/// What is particular to a medium.
pub trait MediumBwuHandler<C: EndpointChannel>: Sized {
    /// The calls so far.
    closed spec fn medium_calls(&self) -> Seq<MediumCall> {
        arbitrary()
    }

    /// What the handler will give.
    closed spec fn medium_replies(&self) -> HandlerReplies {
        arbitrary()
    }

    /// What the handler says of itself, and every call keeps.
    closed spec fn medium_sound(&self) -> bool {
        arbitrary()
    }

    closed spec fn upgrade_medium(&self) -> Medium {
        arbitrary()
    }

    /// Sets up the medium for a service, and gives the serialized offer of it; an
    /// empty one if the medium could not be set up.
    fn handle_initialize_upgraded_medium_for_endpoint(
        &mut self,
        client: &ClientProxy,
        upgrade_service_id: &str,
        endpoint_id: &str,
    ) -> (r: Vec<u8>)
        ensures
            r@ == old(self).medium_replies().offers(
                client@,
                upgrade_service_id@,
                endpoint_id@,
                r@,
            ),
            final(self).medium_calls() == old(self).medium_calls().push(
                MediumCall::Initialize {
                    client: client@,
                    upgrade_service_id: upgrade_service_id@,
                    endpoint_id: endpoint_id@,
                    frame: r@,
                },
            ),
            final(self).medium_replies() == old(self).medium_replies(),
            final(self).medium_sound() == old(self).medium_sound(),
            final(self).upgrade_medium() == old(self).upgrade_medium(),
    ;

    /// Reverts what was set up for a service.
    fn handle_revert_initiator_state_for_service(&mut self, upgrade_service_id: &str)
        ensures
            final(self).medium_calls() == old(self).medium_calls().push(
                MediumCall::Revert { upgrade_service_id: upgrade_service_id@ },
            ),
            final(self).medium_replies() == old(self).medium_replies(),
            final(self).medium_sound() == old(self).medium_sound(),
            final(self).upgrade_medium() == old(self).upgrade_medium(),
    ;

    /// Joins the medium that a peer offers; `None` if that fails.
    fn create_upgraded_endpoint_channel(
        &mut self,
        client: &ClientProxy,
        service_id: &str,
        endpoint_id: &str,
        upgrade_path_info: &UpgradePathInfo,
    ) -> (r: Option<C>)
        ensures
            channel_of(r) == old(self).medium_replies().creates(
                client@,
                service_id@,
                endpoint_id@,
                upgrade_path_info@,
                channel_of(r),
            ),
            final(self).medium_calls() == old(self).medium_calls().push(
                MediumCall::Create {
                    client: client@,
                    service_id: service_id@,
                    endpoint_id: endpoint_id@,
                    info: upgrade_path_info@,
                    channel: channel_of(r),
                },
            ),
            final(self).medium_replies() == old(self).medium_replies(),
            final(self).medium_sound() == old(self).medium_sound(),
            final(self).upgrade_medium() == old(self).upgrade_medium(),
    ;

    fn get_upgrade_medium(&self) -> (r: Medium)
        ensures
            r == self.upgrade_medium(),
    ;

    fn on_endpoint_disconnect(&mut self, client: &ClientProxy, endpoint_id: &str)
        ensures
            final(self).medium_calls() == old(self).medium_calls().push(
                MediumCall::Disconnect { client: client@, endpoint_id: endpoint_id@ },
            ),
            final(self).medium_replies() == old(self).medium_replies(),
            final(self).medium_sound() == old(self).medium_sound(),
            final(self).upgrade_medium() == old(self).upgrade_medium(),
    ;
}

/// Keeps account, for the handler of a medium, of the endpoints that were upgraded
/// for each wrapped service id.
pub struct BaseBwuHandler<H> {
    inner: H,
    upgrade_service_id_to_active_endpoint_ids: StrMap<StrMap<()>>,
    calls: Ghost<Seq<BwuCall>>,
    untouched: Ghost<bool>,
}

/// The endpoints of each service.
pub type Services = Map<Seq<char>, Set<Seq<char>>>;

/// The endpoints of one service.
pub open spec fn endpoints_of(services: Services, service_id: Seq<char>) -> Set<Seq<char>> {
    if services.contains_key(service_id) {
        services[service_id]
    } else {
        Set::empty()
    }
}

/// One more endpoint of a service counts as upgraded.
pub open spec fn with_endpoint(
    services: Services,
    service_id: Seq<char>,
    endpoint_id: Seq<char>,
) -> Services {
    services.insert(service_id, endpoints_of(services, service_id).insert(endpoint_id))
}

/// One endpoint of a service no longer counts as upgraded. Tells whether the service is
/// reverted on that account: some endpoint of it was upgraded, and none is left.
pub open spec fn without_endpoint(
    services: Services,
    service_id: Seq<char>,
    endpoint_id: Seq<char>,
) -> (Services, bool) {
    let endpoints = endpoints_of(services, service_id);
    let rest = endpoints.remove(endpoint_id);
    if !service_id::is_wrapped(service_id) || endpoints == Set::<Seq<char>>::empty() {
        (services, false)
    } else if rest == Set::<Seq<char>>::empty() {
        (services.remove(service_id), true)
    } else {
        (services.insert(service_id, rest), false)
    }
}

/// To revert an endpoint undoes its upgrade. The service is reverted if and only if no
/// other endpoint of it was upgraded.
pub proof fn lemma_reverted_endpoint(
    services: Services,
    service_id: Seq<char>,
    endpoint_id: Seq<char>,
)
    requires
        service_id::is_wrapped(service_id),
        services.contains_key(service_id) ==> services[service_id] != Set::<Seq<char>>::empty(),
        !endpoints_of(services, service_id).contains(endpoint_id),
    ensures
        without_endpoint(
            with_endpoint(services, service_id, endpoint_id),
            service_id,
            endpoint_id,
        ) == (services, !services.contains_key(service_id)),
{
    let before = endpoints_of(services, service_id);
    let added = with_endpoint(services, service_id, endpoint_id);
    assert(added[service_id].contains(endpoint_id));
    assert(added[service_id].remove(endpoint_id) =~= before);
    if services.contains_key(service_id) {
        assert(added.insert(service_id, before) =~= services);
    } else {
        assert(added.remove(service_id) =~= services);
    }
}

/// To revert an endpoint a second time does nothing.
pub proof fn lemma_reverted_endpoint_once(
    services: Services,
    service_id: Seq<char>,
    endpoint_id: Seq<char>,
)
    ensures
        ({
            let after = without_endpoint(services, service_id, endpoint_id).0;
            without_endpoint(after, service_id, endpoint_id) == (after, false)
        }),
{
    let endpoints = endpoints_of(services, service_id);
    let rest = endpoints.remove(endpoint_id);
    let after = without_endpoint(services, service_id, endpoint_id).0;
    assert(rest.remove(endpoint_id) =~= rest);
    if after == services.insert(service_id, rest) {
        assert(after.insert(service_id, rest) =~= after);
    }
}

/// Some services, in some order, are reverted one by one.
pub open spec fn reverts(order: Seq<Seq<char>>) -> Seq<MediumCall> {
    Seq::new(order.len(), |i: int| MediumCall::Revert { upgrade_service_id: order[i] })
}

/// `order` lists each service once.
pub open spec fn lists_services(order: Seq<Seq<char>>, services: Services) -> bool {
    &&& order.no_duplicates()
    &&& forall|s: Seq<char>| #[trigger] order.contains(s) <==> services.contains_key(s)
}

// ---------------------------------------------------------------------------
// What the calls come to
// ---------------------------------------------------------------------------

/// The endpoints of each service after one more call.
pub open spec fn services_after(services: Services, call: BwuCall) -> Services {
    match call {
        BwuCall::Initialize { service_id, endpoint_id, frame, .. } => if frame.len() == 0 {
            services
        } else {
            with_endpoint(services, service_id::wrapped(service_id), endpoint_id)
        },
        BwuCall::RevertAll => Services::empty(),
        BwuCall::RevertEndpoint { upgrade_service_id, endpoint_id } => without_endpoint(
            services,
            upgrade_service_id,
            endpoint_id,
        ).0,
        _ => services,
    }
}

/// What a call comes to for the handler of the medium. `order` is the order in which the
/// services are reverted, where all of them are.
pub open spec fn made_for(
    services: Services,
    call: BwuCall,
    order: Seq<Seq<char>>,
) -> Seq<MediumCall> {
    match call {
        BwuCall::Initialize { client, service_id, endpoint_id, frame } => seq![
            MediumCall::Initialize {
                client,
                upgrade_service_id: service_id::wrapped(service_id),
                endpoint_id,
                frame,
            },
        ],
        BwuCall::RevertAll => reverts(order),
        BwuCall::RevertEndpoint { upgrade_service_id, endpoint_id } => if without_endpoint(
            services,
            upgrade_service_id,
            endpoint_id,
        ).1 {
            seq![MediumCall::Revert { upgrade_service_id }]
        } else {
            Seq::empty()
        },
        BwuCall::RevertResponder { service_id } => seq![
            MediumCall::Revert { upgrade_service_id: service_id },
        ],
        BwuCall::Create { client, service_id, endpoint_id, info, channel } => seq![
            MediumCall::Create { client, service_id, endpoint_id, info, channel },
        ],
        BwuCall::Disconnect { client, endpoint_id } => seq![
            MediumCall::Disconnect { client, endpoint_id },
        ],
    }
}

/// The endpoints of each service after some calls.
pub open spec fn services_of(calls: Seq<BwuCall>) -> Services
    decreases calls.len(),
{
    if calls.len() == 0 {
        Services::empty()
    } else {
        services_after(services_of(calls.drop_last()), calls.last())
    }
}

/// There is an order for each call, and it lists the services that are reverted, where all
/// of them are.
pub open spec fn orders_fit(calls: Seq<BwuCall>, orders: Seq<Seq<Seq<char>>>) -> bool
    decreases calls.len(),
{
    &&& orders.len() == calls.len()
    &&& calls.len() > 0 ==> {
        &&& orders_fit(calls.drop_last(), orders.drop_last())
        &&& calls.last() is RevertAll ==> lists_services(
            orders.last(),
            services_of(calls.drop_last()),
        )
    }
}

/// What some calls come to for the handler of the medium.
pub open spec fn medium_calls_of(
    calls: Seq<BwuCall>,
    orders: Seq<Seq<Seq<char>>>,
) -> Seq<MediumCall>
    decreases calls.len(),
{
    if calls.len() == 0 {
        Seq::empty()
    } else {
        medium_calls_of(calls.drop_last(), orders.drop_last()) + made_for(
            services_of(calls.drop_last()),
            calls.last(),
            orders.last(),
        )
    }
}

/// The endpoints that count as upgraded, and the calls of the handler of the medium, are
/// what the recorded calls come to.
pub open spec fn accounted(
    calls: Seq<BwuCall>,
    services: Services,
    medium_calls: Seq<MediumCall>,
) -> bool {
    &&& services == services_of(calls)
    &&& exists|orders: Seq<Seq<Seq<char>>>| #[trigger]
        orders_fit(calls, orders) && medium_calls == medium_calls_of(calls, orders)
}

/// What a call comes to for the handler of a medium.
///
/// It sets the medium up under the service id with the postfix `_UPGRADE`, and gives what
/// is given. It joins a medium under the service id as it is. It is told of disconnections.
/// To revert what was joined for a service reverts that service.
pub proof fn lemma_call_made(
    services: Services,
    order: Seq<Seq<char>>,
    client: ClientView,
    plain: Seq<char>,
    endpoint_id: Seq<char>,
    frame: Seq<u8>,
    info: UpgradePathInfoView,
    channel: Option<ChannelView>,
)
    requires
        plain.len() > 0,
        !crate::text::ends_in(plain, "_UPGRADE"@),
    ensures
        made_for(
            services,
            BwuCall::Initialize { client, service_id: plain, endpoint_id, frame },
            order,
        ) == seq![
            MediumCall::Initialize {
                client,
                upgrade_service_id: plain + "_UPGRADE"@,
                endpoint_id,
                frame,
            },
        ],
        made_for(
            services,
            BwuCall::Create { client, service_id: plain, endpoint_id, info, channel },
            order,
        ) == seq![MediumCall::Create { client, service_id: plain, endpoint_id, info, channel }],
        made_for(services, BwuCall::Disconnect { client, endpoint_id }, order) == seq![
            MediumCall::Disconnect { client, endpoint_id },
        ],
        made_for(services, BwuCall::RevertResponder { service_id: plain }, order) == seq![
            MediumCall::Revert { upgrade_service_id: plain },
        ],
        made_for(
            services,
            BwuCall::RevertEndpoint { upgrade_service_id: plain, endpoint_id },
            order,
        ) == Seq::<MediumCall>::empty(),
{
    service_id::lemma_postfix(plain);
}

/// An endpoint counts as upgraded once it was offered the medium, and not if the offer was
/// empty. It counts until it is reverted; with the last one of a service the service is
/// reverted, and not before. To revert everything leaves none.
pub proof fn lemma_endpoints_counted(
    services: Services,
    order: Seq<Seq<char>>,
    client: ClientView,
    plain: Seq<char>,
    endpoint_id: Seq<char>,
    frame: Seq<u8>,
)
    requires
        plain.len() > 0,
        !crate::text::ends_in(plain, "_UPGRADE"@),
    ensures
        ({
            let upgrade_service_id = plain + "_UPGRADE"@;
            let offered = services_after(
                services,
                BwuCall::Initialize { client, service_id: plain, endpoint_id, frame },
            );
            &&& frame.len() == 0 ==> offered == services
            &&& frame.len() > 0 ==> offered.contains_key(upgrade_service_id)
                && offered[upgrade_service_id].contains(endpoint_id)
            &&& services_after(services, BwuCall::RevertAll) == Services::empty()
            &&& services_after(services, BwuCall::RevertResponder { service_id: plain }) == services
            &&& services_after(services, BwuCall::Disconnect { client, endpoint_id }) == services
        }),
        ({
            let upgrade_service_id = plain + "_UPGRADE"@;
            let call = BwuCall::RevertEndpoint { upgrade_service_id, endpoint_id };
            let left = services_after(services, call);
            let had = services.contains_key(upgrade_service_id)
                && services[upgrade_service_id] != Set::<Seq<char>>::empty();
            let last = had && services[upgrade_service_id].remove(endpoint_id) == Set::<
                Seq<char>,
            >::empty();
            &&& made_for(services, call, order) == (if last {
                seq![MediumCall::Revert { upgrade_service_id }]
            } else {
                Seq::empty()
            })
            &&& last ==> left == services.remove(upgrade_service_id)
            &&& had && !last ==> left == services.insert(
                upgrade_service_id,
                services[upgrade_service_id].remove(endpoint_id),
            )
            &&& !had ==> left == services
        }),
{
    service_id::lemma_postfix(plain);
    let w = plain + "_UPGRADE"@;
    assert(crate::text::ends_in(w, "_UPGRADE"@)) by {
        assert(w.subrange(w.len() - "_UPGRADE"@.len(), w.len() as int) =~= "_UPGRADE"@);
    }
    service_id::lemma_postfix(w);
}

/// A handler that wraps another offers what that one offers under the service id with the
/// postfix, and joins what that one joins.
pub proof fn lemma_wrapped_replies(
    replies: HandlerReplies,
    client: ClientView,
    plain: Seq<char>,
    endpoint_id: Seq<char>,
    info: UpgradePathInfoView,
)
    requires
        plain.len() > 0,
        !crate::text::ends_in(plain, "_UPGRADE"@),
    ensures
        (replies.wrapped().offer)(client, plain, endpoint_id) == (replies.offer)(
            client,
            plain + "_UPGRADE"@,
            endpoint_id,
        ),
        (replies.wrapped().channel)(client, plain, endpoint_id, info) == (replies.channel)(
            client,
            plain,
            endpoint_id,
            info,
        ),
{
    service_id::lemma_postfix(plain);
}

/// To revert everything reverts each service for which an endpoint counts, once.
pub proof fn lemma_all_services_reverted(
    services: Services,
    order: Seq<Seq<char>>,
    upgrade_service_id: Seq<char>,
)
    requires
        lists_services(order, services),
    ensures
        ({
            let calls = made_for(services, BwuCall::RevertAll, order);
            &&& services.contains_key(upgrade_service_id) ==> calls.contains(
                MediumCall::Revert { upgrade_service_id },
            )
            &&& forall|i: int|
                0 <= i < calls.len() ==> (#[trigger] calls[i] matches MediumCall::Revert {
                    upgrade_service_id: reverted,
                } && services.contains_key(reverted))
            &&& calls.no_duplicates()
        }),
{
    let calls = made_for(services, BwuCall::RevertAll, order);
    if services.contains_key(upgrade_service_id) {
        assert(order.contains(upgrade_service_id));
        let i = order.index_of(upgrade_service_id);
        assert(calls[i] == MediumCall::Revert { upgrade_service_id });
    }
    assert forall|i: int| 0 <= i < calls.len() implies (
    #[trigger] calls[i] matches MediumCall::Revert { upgrade_service_id: reverted }
        && services.contains_key(reverted)) by {
        assert(order.contains(order[i]));
    }
    assert forall|i: int, j: int| 0 <= i < calls.len() && 0 <= j < calls.len() && i
        != j implies calls[i] != calls[j] by {
        assert(order[i] != order[j]);
    }
}

/// One more call keeps the account.
pub proof fn lemma_accounted(
    calls: Seq<BwuCall>,
    services: Services,
    medium_calls: Seq<MediumCall>,
    call: BwuCall,
    order: Seq<Seq<char>>,
)
    requires
        accounted(calls, services, medium_calls),
        call is RevertAll ==> lists_services(order, services),
    ensures
        accounted(
            calls.push(call),
            services_after(services, call),
            medium_calls + made_for(services, call, order),
        ),
{
    let orders = choose|orders: Seq<Seq<Seq<char>>>| #[trigger]
        orders_fit(calls, orders) && medium_calls == medium_calls_of(calls, orders);
    assert(calls.push(call).drop_last() =~= calls);
    assert(orders.push(order).drop_last() =~= orders);
    assert(orders_fit(calls.push(call), orders.push(order)));
}

/// The calls of the handler of a medium, and the endpoints that count as upgraded, are a
/// function of the recorded calls, as long as not all services are reverted at once. Where
/// they are, only the order of that is left open.
pub proof fn lemma_account_is_a_function(
    calls: Seq<BwuCall>,
    first_services: Services,
    first: Seq<MediumCall>,
    second_services: Services,
    second: Seq<MediumCall>,
)
    requires
        accounted(calls, first_services, first),
        accounted(calls, second_services, second),
    ensures
        first_services == second_services,
        (forall|i: int| 0 <= i < calls.len() ==> !(#[trigger] calls[i] is RevertAll)) ==> first
            == second,
{
    if forall|i: int| 0 <= i < calls.len() ==> !(#[trigger] calls[i] is RevertAll) {
        let a = choose|orders: Seq<Seq<Seq<char>>>| #[trigger]
            orders_fit(calls, orders) && first == medium_calls_of(calls, orders);
        let b = choose|orders: Seq<Seq<Seq<char>>>| #[trigger]
            orders_fit(calls, orders) && second == medium_calls_of(calls, orders);
        lemma_orders_irrelevant(calls, a, b);
    }
}

proof fn lemma_orders_irrelevant(
    calls: Seq<BwuCall>,
    a: Seq<Seq<Seq<char>>>,
    b: Seq<Seq<Seq<char>>>,
)
    requires
        forall|i: int| 0 <= i < calls.len() ==> !(#[trigger] calls[i] is RevertAll),
    ensures
        medium_calls_of(calls, a) == medium_calls_of(calls, b),
    decreases calls.len(),
{
    if calls.len() > 0 {
        assert forall|i: int| 0 <= i < calls.drop_last().len() implies !(
        #[trigger] calls.drop_last()[i] is RevertAll) by {
            assert(!(calls[i] is RevertAll));
        }
        assert(!(calls[calls.len() - 1] is RevertAll));
        lemma_orders_irrelevant(calls.drop_last(), a.drop_last(), b.drop_last());
    }
}

/// A wrapper whose medium handler was not reached past it, and is accounted for.
pub open spec fn is_accounted<C: EndpointChannel, H: MediumBwuHandler<C>>(
    handler: BaseBwuHandler<H>,
) -> bool {
    &&& handler.untouched()
    &&& handler.spec_inner().medium_sound()
    &&& accounted(
        handler.all_calls(),
        handler.services(),
        handler.spec_inner().medium_calls(),
    )
}

/// A new wrapper around a handler that was not called yet is accounted for.
pub proof fn lemma_new_accounted<C: EndpointChannel, H: MediumBwuHandler<C>>(
    handler: BaseBwuHandler<H>,
)
    requires
        handler.untouched(),
        handler.all_calls() == Seq::<BwuCall>::empty(),
        handler.services() == Services::empty(),
        handler.spec_inner().medium_sound(),
        handler.spec_inner().medium_calls() == Seq::<MediumCall>::empty(),
    ensures
        is_accounted::<C, H>(handler),
{
    let none: Seq<Seq<Seq<char>>> = Seq::empty();
    assert(orders_fit(handler.all_calls(), none));
}

spec fn services_view(m: Map<Seq<char>, StrMap<()>>) -> Services {
    Map::new(|k: Seq<char>| m.contains_key(k), |k: Seq<char>| m[k]@.dom())
}

impl<H> BaseBwuHandler<H> {
    /// The endpoints that were upgraded, for each wrapped service id.
    pub closed spec fn services(&self) -> Services {
        services_view(self.upgrade_service_id_to_active_endpoint_ids@)
    }

    /// The handler of the medium.
    pub closed spec fn spec_inner(&self) -> &H {
        &self.inner
    }

    /// The calls so far.
    pub closed spec fn all_calls(&self) -> Seq<BwuCall> {
        self.calls@
    }

    /// The handler of the medium was not reached past the wrapper.
    pub closed spec fn untouched(&self) -> bool {
        self.untouched@
    }

    pub fn new(inner: H) -> (r: BaseBwuHandler<H>)
        ensures
            r.untouched(),
            *r.spec_inner() == inner,
            r.services() == Services::empty(),
            r.all_calls() == Seq::<BwuCall>::empty(),
    {
        let r = BaseBwuHandler {
            inner,
            upgrade_service_id_to_active_endpoint_ids: StrMap::new(),
            calls: Ghost(Seq::empty()),
            untouched: Ghost(true),
        };
        assert(r.services() =~= Services::empty());
        r
    }

    pub fn inner(&self) -> (r: &H)
        ensures
            *r == *self.spec_inner(),
    {
        &self.inner
    }

    /// The handler of the medium, to be changed. After that it is not accounted for.
    pub fn inner_mut(&mut self) -> (r: &mut H)
        ensures
            !final(self).untouched(),
            *r == *old(self).spec_inner(),
            *final(self).spec_inner() == *final(r),
            final(self).services() == old(self).services(),
            final(self).all_calls() == old(self).all_calls(),
    {
        self.untouched = Ghost(false);
        &mut self.inner
    }
}

/// The handler of the medium was called once more.
proof fn lemma_one_call(earlier: Seq<MediumCall>, call: MediumCall)
    ensures
        earlier.push(call) == earlier + seq![call],
{
    assert(earlier.push(call) =~= earlier + seq![call]);
}

/// What a call comes to: for the endpoints that count as upgraded, and for the handler of the
/// medium.
pub open spec fn follows<C: EndpointChannel, H: MediumBwuHandler<C>>(
    before: BaseBwuHandler<H>,
    call: BwuCall,
    order: Seq<Seq<char>>,
    after: BaseBwuHandler<H>,
) -> bool {
    &&& after.services() == services_after(before.services(), call)
    &&& after.spec_inner().medium_calls() == before.spec_inner().medium_calls() + made_for(
        before.services(),
        call,
        order,
    )
}

impl<H> BaseBwuHandler<H> {
    /// Records a call, once it is carried out.
    fn record<C: EndpointChannel>(
        &mut self,
        before: Ghost<BaseBwuHandler<H>>,
        call: Ghost<BwuCall>,
        order: Ghost<Seq<Seq<char>>>,
    ) where H: MediumBwuHandler<C>
        requires
            old(self).all_calls() == before@.all_calls(),
            old(self).untouched() == before@.untouched(),
            old(self).spec_inner().medium_sound() == before@.spec_inner().medium_sound(),
            call@ is RevertAll ==> lists_services(order@, before@.services()),
            follows::<C, H>(before@, call@, order@, *old(self)),
        ensures
            *final(self).spec_inner() == *old(self).spec_inner(),
            final(self).services() == old(self).services(),
            final(self).all_calls() == before@.all_calls().push(call@),
            is_accounted::<C, H>(*final(self)) == is_accounted::<C, H>(before@),
    {
        self.calls = Ghost(self.calls@.push(call@));
        self.untouched = Ghost(is_accounted::<C, H>(before@));
        proof {
            if is_accounted::<C, H>(before@) {
                lemma_accounted(
                    before@.all_calls(),
                    before@.services(),
                    before@.spec_inner().medium_calls(),
                    call@,
                    order@,
                );
            }
        }
    }
}

impl<C: EndpointChannel, H: MediumBwuHandler<C>> BwuHandler<C> for BaseBwuHandler<H> {
    open spec fn calls(&self) -> Seq<BwuCall> {
        self.all_calls()
    }

    open spec fn replies(&self) -> HandlerReplies {
        self.spec_inner().medium_replies().wrapped()
    }

    open spec fn sound(&self) -> bool {
        is_accounted::<C, H>(*self)
    }

    closed spec fn upgrade_medium(&self) -> Medium {
        self.inner.upgrade_medium()
    }

    /// The medium is set up for the wrapped service id. If that gave an offer, the
    /// endpoint counts as upgraded.
    fn initialize_upgraded_medium_for_endpoint(
        &mut self,
        client: &ClientProxy,
        service_id: &str,
        endpoint_id: &str,
    ) -> (r: Vec<u8>)
        ensures
            ({
                let call = BwuCall::Initialize {
                    client: client@,
                    service_id: service_id@,
                    endpoint_id: endpoint_id@,
                    frame: r@,
                };
                follows::<C, H>(*old(self), call, Seq::empty(), *final(self))
            }),
    {
        let upgrade_service_id = wrap_initiator_upgrade_service_id(service_id);
        let frame = self.inner.handle_initialize_upgraded_medium_for_endpoint(
            client,
            upgrade_service_id.as_str(),
            endpoint_id,
        );
        if frame.len() > 0 {
            let mut endpoints = match self.upgrade_service_id_to_active_endpoint_ids.remove(
                upgrade_service_id.as_str(),
            ) {
                Some(endpoints) => endpoints,
                None => StrMap::new(),
            };
            let ghost before = endpoints@.dom();
            let _ = endpoints.insert(endpoint_id, ());
            assert(endpoints@.dom() =~= before.insert(endpoint_id@));
            let _ = self.upgrade_service_id_to_active_endpoint_ids.insert(
                upgrade_service_id.as_str(),
                endpoints,
            );
            assert(before =~= endpoints_of(old(self).services(), upgrade_service_id@));
            assert(self.services() =~= old(self).services().insert(
                upgrade_service_id@,
                before.insert(endpoint_id@),
            ));
        }
        let ghost call = BwuCall::Initialize {
            client: client@,
            service_id: service_id@,
            endpoint_id: endpoint_id@,
            frame: frame@,
        };
        proof {
            lemma_one_call(old(self).inner.medium_calls(), self.inner.medium_calls().last());
        }
        self.record::<C>(Ghost(*old(self)), Ghost(call), Ghost(Seq::empty()));
        frame
    }

    /// Every service is reverted once, and no endpoint counts as upgraded any more.
    fn revert_initiator_state(&mut self)
        ensures
            exists|order: Seq<Seq<char>>|
                lists_services(order, old(self).services()) && #[trigger] follows::<C, H>(
                    *old(self),
                    BwuCall::RevertAll,
                    order,
                    *final(self),
                ),
    {
        let n: usize = self.upgrade_service_id_to_active_endpoint_ids.len();
        let ghost order = self.upgrade_service_id_to_active_endpoint_ids.keys();
        let ghost before = self.inner.medium_calls();
        assert(lists_services(order, old(self).services())) by {
            assert forall|s: Seq<char>| #[trigger] order.contains(s) <==> old(
                self,
            ).services().contains_key(s) by {
                assert(self.upgrade_service_id_to_active_endpoint_ids@.contains_key(s)
                    <==> order.contains(s));
            }
        }
        let mut i: usize = 0;
        assert(before + reverts(order.take(0)) =~= before);
        while i < n
            invariant
                i <= n,
                n == order.len(),
                order == self.upgrade_service_id_to_active_endpoint_ids.keys(),
                self.calls@ == old(self).calls@,
                self.untouched@ == old(self).untouched@,
                self.inner.upgrade_medium() == old(self).inner.upgrade_medium(),
                self.inner.medium_replies() == old(self).inner.medium_replies(),
                self.inner.medium_sound() == old(self).inner.medium_sound(),
                self.inner.medium_calls() == before + reverts(order.take(i as int)),
            decreases n - i,
        {
            let service_id = self.upgrade_service_id_to_active_endpoint_ids.key_at(i).to_owned();
            self.inner.handle_revert_initiator_state_for_service(service_id.as_str());
            i = i + 1;
            assert(before + reverts(order.take(i as int)) =~= (before + reverts(
                order.take(i - 1),
            )).push(MediumCall::Revert { upgrade_service_id: order[i - 1] }));
        }
        assert(order.take(i as int) =~= order);
        self.upgrade_service_id_to_active_endpoint_ids.clear();
        assert(self.services() =~= Services::empty());
        self.record::<C>(Ghost(*old(self)), Ghost(BwuCall::RevertAll), Ghost(order));
        assert(follows::<C, H>(*old(self), BwuCall::RevertAll, order, *self));
    }

    /// The endpoint no longer counts as upgraded. If it was the last one of its
    /// service, and only then, the service is reverted. An id without the postfix is
    /// ignored.
    fn revert_initiator_state_for_endpoint(&mut self, upgrade_service_id: &str, endpoint_id: &str)
        ensures
            ({
                let call = BwuCall::RevertEndpoint {
                    upgrade_service_id: upgrade_service_id@,
                    endpoint_id: endpoint_id@,
                };
                follows::<C, H>(*old(self), call, Seq::empty(), *final(self))
            }),
    {
        let ghost call = BwuCall::RevertEndpoint {
            upgrade_service_id: upgrade_service_id@,
            endpoint_id: endpoint_id@,
        };
        assert(self.inner.medium_calls() + Seq::<MediumCall>::empty()
            =~= self.inner.medium_calls());
        if !is_initiator_upgrade_service_id(upgrade_service_id) {
            self.record::<C>(Ghost(*old(self)), Ghost(call), Ghost(Seq::empty()));
            return ;
        }
        match self.upgrade_service_id_to_active_endpoint_ids.remove(upgrade_service_id) {
            Some(endpoints) => {
                let mut endpoints = endpoints;
                let ghost before = endpoints@.dom();
                assert(before == endpoints_of(old(self).services(), upgrade_service_id@));
                let was_empty = endpoints.len() == 0;
                assert(was_empty <==> before =~= Set::<Seq<char>>::empty());
                let _ = endpoints.remove(endpoint_id);
                assert(endpoints@.dom() =~= before.remove(endpoint_id@));
                let now_empty = endpoints.len() == 0;
                assert(now_empty <==> before.remove(endpoint_id@) =~= Set::<Seq<char>>::empty());
                if was_empty {
                    assert(before.remove(endpoint_id@) =~= before);
                    let _ = self.upgrade_service_id_to_active_endpoint_ids.insert(
                        upgrade_service_id,
                        endpoints,
                    );
                    assert(self.services() =~= old(self).services());
                } else if now_empty {
                    assert(self.services() =~= old(self).services().remove(upgrade_service_id@));
                    self.inner.handle_revert_initiator_state_for_service(upgrade_service_id);
                    proof {
                        lemma_one_call(
                            old(self).inner.medium_calls(),
                            self.inner.medium_calls().last(),
                        );
                    }
                } else {
                    let _ = self.upgrade_service_id_to_active_endpoint_ids.insert(
                        upgrade_service_id,
                        endpoints,
                    );
                    assert(self.services() =~= old(self).services().insert(
                        upgrade_service_id@,
                        before.remove(endpoint_id@),
                    ));
                }
            },
            None => {
                assert(self.services() =~= old(self).services());
            },
        }
        self.record::<C>(Ghost(*old(self)), Ghost(call), Ghost(Seq::empty()));
    }

    /// The handler of the medium reverts the plain service id.
    fn revert_responder_state(&mut self, service_id: &str)
        ensures
            follows::<C, H>(
                *old(self),
                BwuCall::RevertResponder { service_id: service_id@ },
                Seq::empty(),
                *final(self),
            ),
    {
        self.inner.handle_revert_initiator_state_for_service(service_id);
        let ghost call = BwuCall::RevertResponder { service_id: service_id@ };
        proof {
            lemma_one_call(old(self).inner.medium_calls(), self.inner.medium_calls().last());
        }
        self.record::<C>(Ghost(*old(self)), Ghost(call), Ghost(Seq::empty()));
    }

    /// The handler of the medium joins it.
    fn create_upgraded_endpoint_channel(
        &mut self,
        client: &ClientProxy,
        service_id: &str,
        endpoint_id: &str,
        upgrade_path_info: &UpgradePathInfo,
    ) -> (r: Option<C>)
        ensures
            ({
                let call = BwuCall::Create {
                    client: client@,
                    service_id: service_id@,
                    endpoint_id: endpoint_id@,
                    info: upgrade_path_info@,
                    channel: channel_of(r),
                };
                follows::<C, H>(*old(self), call, Seq::empty(), *final(self))
            }),
    {
        let r = self.inner.create_upgraded_endpoint_channel(
            client,
            service_id,
            endpoint_id,
            upgrade_path_info,
        );
        let ghost call = BwuCall::Create {
            client: client@,
            service_id: service_id@,
            endpoint_id: endpoint_id@,
            info: upgrade_path_info@,
            channel: channel_of(r),
        };
        proof {
            lemma_one_call(old(self).inner.medium_calls(), self.inner.medium_calls().last());
        }
        self.record::<C>(Ghost(*old(self)), Ghost(call), Ghost(Seq::empty()));
        r
    }

    fn get_upgrade_medium(&self) -> Medium {
        self.inner.get_upgrade_medium()
    }

    fn on_endpoint_disconnect(&mut self, client: &ClientProxy, endpoint_id: &str)
        ensures
            follows::<C, H>(
                *old(self),
                BwuCall::Disconnect { client: client@, endpoint_id: endpoint_id@ },
                Seq::empty(),
                *final(self),
            ),
    {
        self.inner.on_endpoint_disconnect(client, endpoint_id);
        let ghost call = BwuCall::Disconnect { client: client@, endpoint_id: endpoint_id@ };
        proof {
            lemma_one_call(old(self).inner.medium_calls(), self.inner.medium_calls().last());
        }
        self.record::<C>(Ghost(*old(self)), Ghost(call), Ghost(Seq::empty()));
    }
}

} // verus!

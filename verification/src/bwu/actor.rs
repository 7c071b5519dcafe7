//! The single owner of an upgrade: it takes one command at a time, and keeps the time of
//! the retries.
//!
//! Frames, timers and connections have to be applied in order, or a handshake comes out
//! of step. A [`BwuActor`] owns the manager of upgrades and the client, and a
//! [`BwuCommand`] is one unit of work for it. It does not read a clock: whoever runs it
//! hands in the time, in milliseconds, sleeps until [`BwuActor::next_deadline`], and calls
//! [`BwuActor::fire_due_retries`].

use vstd::prelude::*;

use crate::bwu::channel::{DisconnectionReason, EndpointChannel, SafeDisconnectionResult};
use crate::bwu::channel_manager;
use crate::bwu::channel_manager::EndpointChannelManager;
use crate::bwu::client;
use crate::bwu::client::{ClientCall, ClientProxy, ClientView, EndpointView};
use crate::bwu::handler::{BwuHandler, IncomingSocketConnection};
use crate::bwu::handler_map::HandlerMap;
use crate::bwu::laws;
use crate::bwu::manager;
use crate::bwu::manager::{BwuConfig, BwuManager};
use crate::bwu::model::{BwuView, Offer, Outcomes};
use crate::bwu::str_map::StrMap;
use crate::mediums::Medium;
use crate::proto as pb;

verus! {

/// One unit of work.
pub enum BwuCommand<C: EndpointChannel> {
    /// A connection was initiated.
    ConnectionInitiated { endpoint_id: String, is_incoming: bool, auto_upgrade_bandwidth: bool },
    /// The connection is established.
    ConnectionAccepted { endpoint_id: String },
    LocalEndpointAccepted { endpoint_id: String },
    RemoteEndpointAccepted { endpoint_id: String },
    /// The connection is gone.
    Disconnected { endpoint_id: String },
    /// Sets the mediums to which a connection may be upgraded, the best first.
    SetUpgradeMediums { endpoint_id: String, mediums: Vec<Medium> },
    /// Sets the channel of an endpoint, before any upgrade.
    RegisterChannel { endpoint_id: String, channel: C },
    /// Forgets the channel of an endpoint.
    UnregisterChannel {
        endpoint_id: String,
        reason: DisconnectionReason,
        result: SafeDisconnectionResult,
    },
    /// Starts an upgrade.
    InitiateBwu { endpoint_id: String, medium: Medium },
    /// A frame has come in.
    IncomingFrame { frame: pb::OfflineFrame, endpoint_id: String, medium: Medium },
    /// A peer has opened a channel over the medium of an upgrade.
    IncomingConnection { connection: IncomingSocketConnection<C> },
    /// An endpoint has disconnected: its upgrade is forgotten.
    EndpointDisconnect { service_id: String, endpoint_id: String, reason: DisconnectionReason },
    /// Reverts everything; nothing is taken after that.
    Shutdown,
    /// Asks whether an upgrade is in progress.
    IsUpgradeOngoing { endpoint_id: String },
    /// Asks for the delay of the retry that is waiting.
    PendingRetryDelay { endpoint_id: String },
    /// Asks for the upgrades that were completed.
    BandwidthChangedEvents,
}

/// What a command gives.
pub enum BwuReply {
    /// It is done.
    Done,
    /// It is done, and was the last one.
    Stopped,
    UpgradeOngoing(bool),
    RetryDelay(Option<u64>),
    Events(Vec<(String, Medium)>),
}

/// The owner of an upgrade.
pub struct BwuActor<C: EndpointChannel, B: BwuHandler<C>> {
    manager: BwuManager<C, B>,
    client: ClientProxy,
    armed: StrMap<u64>,
}

/// What [`BwuActor`] stands for.
#[verifier::ext_equal]
pub struct ActorView {
    pub bwu: BwuView,
    pub client: ClientView,
    /// The time at which the retry of each endpoint is due.
    pub armed: Map<Seq<char>, u64>,
}

impl<C: EndpointChannel, B: BwuHandler<C>> View for BwuActor<C, B> {
    type V = ActorView;

    closed spec fn view(&self) -> ActorView {
        ActorView { bwu: self.manager@, client: self.client@, armed: self.armed@ }
    }
}

/// The time that is `delay` after `now`; the end of time, if it would come after that.
pub open spec fn later(now: u64, delay: u64) -> u64 {
    if now + delay <= u64::MAX {
        (now + delay) as u64
    } else {
        u64::MAX
    }
}

/// The retries of some endpoints are fired, one by one.
pub open spec fn fired(
    bwu: BwuView,
    client: ClientView,
    order: Seq<Seq<char>>,
    offers: Seq<Seq<Offer>>,
) -> BwuView
    decreases order.len(),
{
    if order.len() == 0 {
        bwu
    } else {
        fired(bwu, client, order.drop_last(), offers).alarm_fired(
            client,
            order.last(),
            offers[order.len() - 1],
        )
    }
}

/// `order` lists each endpoint whose retry is due once.
pub open spec fn lists_due(order: Seq<Seq<char>>, armed: Map<Seq<char>, u64>, now: u64) -> bool {
    &&& order.no_duplicates()
    &&& forall|k: Seq<char>| #[trigger]
        order.contains(k) <==> armed.contains_key(k) && armed[k] <= now
}

impl ActorView {
    /// The client is told something.
    pub open spec fn told(self, call: ClientCall) -> ActorView {
        ActorView { client: self.client.after(call), ..self }
    }

    /// A command is carried out.
    #[verifier::opaque]
    pub open spec fn handled<C: EndpointChannel>(self, cmd: BwuCommand<C>, o: Outcomes) -> ActorView {
        let client = self.client;
        match cmd {
            BwuCommand::ConnectionInitiated { endpoint_id, is_incoming, auto_upgrade_bandwidth } =>
            self.told(
                ClientCall::Initiated {
                    endpoint_id: endpoint_id@,
                    is_incoming,
                    auto_upgrade_bandwidth,
                },
            ),
            BwuCommand::ConnectionAccepted { endpoint_id } => self.told(
                ClientCall::Accepted { endpoint_id: endpoint_id@ },
            ),
            BwuCommand::LocalEndpointAccepted { endpoint_id } => self.told(
                ClientCall::LocalAccepted { endpoint_id: endpoint_id@ },
            ),
            BwuCommand::RemoteEndpointAccepted { endpoint_id } => self.told(
                ClientCall::RemoteAccepted { endpoint_id: endpoint_id@ },
            ),
            BwuCommand::Disconnected { endpoint_id } => self.told(
                ClientCall::Disconnected { endpoint_id: endpoint_id@ },
            ),
            BwuCommand::SetUpgradeMediums { endpoint_id, mediums } => self.told(
                ClientCall::UpgradeMediums { endpoint_id: endpoint_id@, mediums: mediums@ },
            ),
            BwuCommand::RegisterChannel { endpoint_id, channel } => ActorView {
                bwu: self.bwu.registered(endpoint_id@, channel.channel()),
                ..self
            },
            BwuCommand::UnregisterChannel { endpoint_id, reason, result } => ActorView {
                bwu: self.bwu.unregistered(endpoint_id@),
                ..self
            },
            BwuCommand::InitiateBwu { endpoint_id, medium } => ActorView {
                bwu: self.bwu.initiated(client, endpoint_id@, medium, o.offers),
                ..self
            },
            BwuCommand::IncomingFrame { frame, endpoint_id, medium } => {
                let (bwu, client) = self.bwu.received(client, frame@, endpoint_id@, o);
                ActorView { bwu, client, ..self }
            },
            BwuCommand::IncomingConnection { connection } => ActorView {
                bwu: self.bwu.connected(client, connection.channel.channel(), o),
                ..self
            },
            BwuCommand::EndpointDisconnect { service_id, endpoint_id, reason } => ActorView {
                bwu: self.bwu.disconnected(client, service_id@, endpoint_id@),
                ..self
            },
            BwuCommand::Shutdown => ActorView { bwu: self.bwu.shut_down(o.order), ..self },
            BwuCommand::IsUpgradeOngoing { endpoint_id } => self,
            BwuCommand::PendingRetryDelay { endpoint_id } => self,
            BwuCommand::BandwidthChangedEvents => self,
        }
    }

    /// What a command gives.
    pub open spec fn replies<C: EndpointChannel>(self, cmd: BwuCommand<C>, reply: BwuReply) -> bool {
        match cmd {
            BwuCommand::Shutdown => reply is Stopped,
            BwuCommand::IsUpgradeOngoing { endpoint_id } => reply == BwuReply::UpgradeOngoing(
                self.bwu.in_progress.contains(endpoint_id@),
            ),
            BwuCommand::PendingRetryDelay { endpoint_id } => reply == BwuReply::RetryDelay(
                if self.bwu.alarms.contains_key(endpoint_id@) {
                    Some(self.bwu.alarms[endpoint_id@])
                } else {
                    None
                },
            ),
            BwuCommand::BandwidthChangedEvents => reply matches BwuReply::Events(events)
                && client::events_are(events@, self.client.bandwidth_changed),
            _ => reply is Done,
        }
    }

    /// The timers follow the retries that wait: a new one is due its delay from now, and
    /// one that is armed already is due when it was.
    pub open spec fn reconciled(self, now: u64) -> ActorView {
        ActorView {
            armed: Map::new(
                |k: Seq<char>| self.bwu.alarms.contains_key(k),
                |k: Seq<char>|
                    if self.armed.contains_key(k) {
                        self.armed[k]
                    } else {
                        later(now, self.bwu.alarms[k])
                    },
            ),
            ..self
        }
    }

    /// The retries that are due are fired, in some order.
    pub open spec fn retried(
        self,
        now: u64,
        order: Seq<Seq<char>>,
        offers: Seq<Seq<Offer>>,
    ) -> ActorView {
        ActorView {
            bwu: fired(self.bwu, self.client, order, offers),
            armed: Map::new(
                |k: Seq<char>| self.armed.contains_key(k) && self.armed[k] > now,
                |k: Seq<char>| self.armed[k],
            ),
            ..self
        }.reconciled(now)
    }
}

impl<C: EndpointChannel, B: BwuHandler<C>> BwuActor<C, B> {
    pub fn new(handlers: HandlerMap<B>, config: BwuConfig, local_endpoint_id: &str) -> (r: BwuActor<
        C,
        B,
    >)
        ensures
            r@.client == client::new_client(0, local_endpoint_id@),
            r@.armed == Map::<Seq<char>, u64>::empty(),
            r@.bwu == (BwuView {
                config,
                channels: Map::empty(),
                handlers: manager::handlers_view::<C, B>(handlers@),
                medium: Medium::UnknownMedium,
                mediums: Map::empty(),
                in_progress: Set::empty(),
                previous: Map::empty(),
                early: Set::empty(),
                retry_delays: Map::empty(),
                alarms: Map::empty(),
                retired: Seq::empty(),
                dropped: Seq::empty(),
                handovers: Seq::empty(),
            }),
    {
        let ecm: EndpointChannelManager<C> = EndpointChannelManager::new();
        assert(channel_manager::channels_view(ecm@) =~= Map::empty());
        assert(manager::channel_list(ecm.dropped()) =~= Seq::empty());
        BwuActor {
            manager: BwuManager::new(ecm, handlers, config),
            client: ClientProxy::new(0, local_endpoint_id),
            armed: StrMap::new(),
        }
    }

    /// Carries a command out, and arms or drops timers as its retries ask for.
    pub fn apply(&mut self, cmd: BwuCommand<C>, now: u64) -> (reply: BwuReply)
        ensures
            old(self)@.replies(cmd, reply),
            exists|o: Outcomes|
                final(self)@ == (#[trigger] old(self)@.handled(cmd, o)).reconciled(now),
    {
        let ghost before = self@;
        let reply = self.handle(cmd);
        let ghost o = choose|o: Outcomes| self@ == #[trigger] before.handled(cmd, o);
        self.reconcile_timers(now);
        assert(self@ == before.handled(cmd, o).reconciled(now));
        reply
    }

    /// Carries a command out.
    fn handle(&mut self, cmd: BwuCommand<C>) -> (reply: BwuReply)
        ensures
            old(self)@.replies(cmd, reply),
            exists|o: Outcomes| final(self)@ == #[trigger] old(self)@.handled(cmd, o),
    {
        match cmd {
            BwuCommand::ConnectionInitiated { .. } => self.tell_client(cmd),
            BwuCommand::ConnectionAccepted { .. } => self.tell_client(cmd),
            BwuCommand::LocalEndpointAccepted { .. } => self.tell_client(cmd),
            BwuCommand::RemoteEndpointAccepted { .. } => self.tell_client(cmd),
            BwuCommand::Disconnected { .. } => self.tell_client(cmd),
            BwuCommand::SetUpgradeMediums { .. } => self.tell_client(cmd),
            BwuCommand::RegisterChannel { .. } => self.change_channels(cmd),
            BwuCommand::UnregisterChannel { .. } => self.change_channels(cmd),
            BwuCommand::EndpointDisconnect { .. } => self.revert(cmd),
            BwuCommand::Shutdown => self.revert(cmd),
            BwuCommand::InitiateBwu { endpoint_id, medium } => self.initiate(endpoint_id, medium),
            BwuCommand::IncomingFrame { frame, endpoint_id, medium } => self.take_frame(
                frame,
                endpoint_id,
                medium,
            ),
            BwuCommand::IncomingConnection { connection } => self.take_connection(connection),
            BwuCommand::IsUpgradeOngoing { .. } => self.answer(cmd),
            BwuCommand::PendingRetryDelay { .. } => self.answer(cmd),
            BwuCommand::BandwidthChangedEvents => self.answer(cmd),
        }
    }

    /// Carries out a command that tells the client something.
    fn tell_client(&mut self, cmd: BwuCommand<C>) -> (reply: BwuReply)
        requires
            tells_client(cmd),
        ensures
            reply is Done,
            exists|o: Outcomes| final(self)@ == #[trigger] old(self)@.handled(cmd, o),
    {
        let ghost whole = cmd;
        let ghost o: Outcomes = arbitrary();
        match cmd {
            BwuCommand::ConnectionInitiated { endpoint_id, is_incoming, auto_upgrade_bandwidth } =>
            {
                self.client.on_connection_initiated(
                    endpoint_id.as_str(),
                    is_incoming,
                    auto_upgrade_bandwidth,
                );
            },
            BwuCommand::ConnectionAccepted { endpoint_id } => {
                self.client.on_connection_accepted(endpoint_id.as_str());
            },
            BwuCommand::LocalEndpointAccepted { endpoint_id } => {
                self.client.local_endpoint_accepted_connection(endpoint_id.as_str());
            },
            BwuCommand::RemoteEndpointAccepted { endpoint_id } => {
                self.client.remote_endpoint_accepted_connection(endpoint_id.as_str());
            },
            BwuCommand::Disconnected { endpoint_id } => {
                self.client.on_disconnected(endpoint_id.as_str());
            },
            BwuCommand::SetUpgradeMediums { endpoint_id, mediums } => {
                self.client.set_upgrade_mediums(endpoint_id.as_str(), mediums);
            },
            _ => {},
        }
        proof {
            reveal(ActorView::handled);
            assert(self@ == old(self)@.handled(whole, o));
        }
        BwuReply::Done
    }

    /// Carries out a command that changes the channel of an endpoint.
    fn change_channels(&mut self, cmd: BwuCommand<C>) -> (reply: BwuReply)
        requires
            cmd is RegisterChannel || cmd is UnregisterChannel,
        ensures
            reply is Done,
            exists|o: Outcomes| final(self)@ == #[trigger] old(self)@.handled(cmd, o),
    {
        let ghost whole = cmd;
        let ghost o: Outcomes = arbitrary();
        match cmd {
            BwuCommand::RegisterChannel { endpoint_id, channel } => {
                self.manager.register_channel_for_endpoint(
                    &self.client,
                    endpoint_id.as_str(),
                    channel,
                );
            },
            BwuCommand::UnregisterChannel { endpoint_id, reason, result } => {
                let _ = self.manager.unregister_channel_for_endpoint(
                    endpoint_id.as_str(),
                    reason,
                    result,
                );
            },
            _ => {},
        }
        proof {
            reveal(ActorView::handled);
            assert(self@ == old(self)@.handled(whole, o));
        }
        BwuReply::Done
    }

    /// Carries out a command that ends one upgrade or all of them.
    fn revert(&mut self, cmd: BwuCommand<C>) -> (reply: BwuReply)
        requires
            cmd is EndpointDisconnect || cmd is Shutdown,
        ensures
            cmd is Shutdown ==> reply is Stopped,
            cmd is EndpointDisconnect ==> reply is Done,
            exists|o: Outcomes| final(self)@ == #[trigger] old(self)@.handled(cmd, o),
    {
        let ghost whole = cmd;
        let ghost o: Outcomes = arbitrary();
        let reply = match cmd {
            BwuCommand::EndpointDisconnect { service_id, endpoint_id, reason } => {
                self.manager.on_endpoint_disconnect(
                    &mut self.client,
                    service_id.as_str(),
                    endpoint_id.as_str(),
                    reason,
                );
                BwuReply::Done
            },
            _ => {
                self.manager.shutdown();
                proof {
                    let order = choose|order: Seq<Seq<char>>|
                        self.manager@ == #[trigger] old(self)@.bwu.shut_down(order);
                    o = Outcomes { order, ..o };
                }
                BwuReply::Stopped
            },
        };
        proof {
            reveal(ActorView::handled);
            assert(self@ == old(self)@.handled(whole, o));
        }
        reply
    }

    fn initiate(&mut self, endpoint_id: String, medium: Medium) -> (reply: BwuReply)
        ensures
            reply is Done,
            exists|o: Outcomes|
                final(self)@ == #[trigger] old(self)@.handled(
                    BwuCommand::<C>::InitiateBwu { endpoint_id, medium },
                    o,
                ),
    {
        self.manager.initiate_bwu_for_endpoint(&mut self.client, endpoint_id.as_str(), medium);
        proof {
            let offers = choose|offers: Seq<Offer>|
                self.manager@ == #[trigger] old(self)@.bwu.initiated(
                    old(self)@.client,
                    endpoint_id@,
                    medium,
                    offers,
                );
            reveal(ActorView::handled);
            let o = Outcomes { offers, ..arbitrary() };
            let cmd = BwuCommand::<C>::InitiateBwu { endpoint_id, medium };
            assert(self@ == old(self)@.handled(cmd, o));
        }
        BwuReply::Done
    }

    fn take_frame(&mut self, frame: pb::OfflineFrame, endpoint_id: String, medium: Medium) -> (reply:
        BwuReply)
        ensures
            reply is Done,
            exists|o: Outcomes|
                final(self)@ == #[trigger] old(self)@.handled(
                    BwuCommand::<C>::IncomingFrame { frame, endpoint_id, medium },
                    o,
                ),
    {
        self.manager.on_incoming_frame(&frame, endpoint_id.as_str(), &mut self.client, medium);
        proof {
            let o = choose|o: Outcomes|
                (self.manager@, self.client@) == #[trigger] old(self)@.bwu.received(
                    old(self)@.client,
                    frame@,
                    endpoint_id@,
                    o,
                );
            reveal(ActorView::handled);
            let cmd = BwuCommand::<C>::IncomingFrame { frame, endpoint_id, medium };
            assert(self@ == old(self)@.handled(cmd, o));
        }
        BwuReply::Done
    }

    fn take_connection(&mut self, connection: IncomingSocketConnection<C>) -> (reply: BwuReply)
        ensures
            reply is Done,
            exists|o: Outcomes|
                final(self)@ == #[trigger] old(self)@.handled(
                    BwuCommand::<C>::IncomingConnection { connection },
                    o,
                ),
    {
        let ghost channel = connection.channel.channel();
        self.manager.on_incoming_connection(&mut self.client, connection);
        proof {
            let o = choose|o: Outcomes|
                self.manager@ == #[trigger] old(self)@.bwu.connected(
                    old(self)@.client,
                    channel,
                    o,
                );
            reveal(ActorView::handled);
            let cmd = BwuCommand::<C>::IncomingConnection { connection };
            assert(self@ == old(self)@.handled(cmd, o));
        }
        BwuReply::Done
    }

    /// Answers a command that asks something and changes nothing.
    fn answer(&mut self, cmd: BwuCommand<C>) -> (reply: BwuReply)
        requires
            asks(cmd),
        ensures
            old(self)@.replies(cmd, reply),
            exists|o: Outcomes| final(self)@ == #[trigger] old(self)@.handled(cmd, o),
    {
        let ghost o: Outcomes = arbitrary();
        proof {
            reveal(ActorView::handled);
            assert(self@ == old(self)@.handled(cmd, o));
        }
        match cmd {
            BwuCommand::IsUpgradeOngoing { endpoint_id } => BwuReply::UpgradeOngoing(
                self.manager.is_upgrade_ongoing(endpoint_id.as_str()),
            ),
            BwuCommand::PendingRetryDelay { endpoint_id } => BwuReply::RetryDelay(
                self.manager.pending_retry_delay(endpoint_id.as_str()),
            ),
            _ => BwuReply::Events(self.client.copy_events()),
        }
    }

    /// Arms a timer for each retry that waits and has none, and drops those whose retry
    /// waits no longer.
    fn reconcile_timers(&mut self, now: u64)
        ensures
            final(self)@ == old(self)@.reconciled(now),
    {
        let pending = self.manager.pending_retry_delays();
        let ghost alarms = self@.bwu.alarms;
        let ghost target = self@.reconciled(now).armed;
        let mut armed: StrMap<u64> = StrMap::new();
        let mut i: usize = 0;
        while i < pending.len()
            invariant
                i <= pending@.len(),
                alarms == self@.bwu.alarms,
                self@ == old(self)@,
                target == self@.reconciled(now).armed,
                manager::lists_alarms(pending@, alarms),
                forall|k: Seq<char>| #[trigger]
                    armed@.contains_key(k) ==> target.contains_key(k) && armed@[k] == target[k],
                forall|j: int| 0 <= j < i ==> armed@.contains_key((#[trigger] pending@[j]).0@),
            decreases pending@.len() - i,
        {
            let endpoint_id = pending[i].0.as_str();
            let delay: u64 = pending[i].1;
            assert(alarms.contains_key(pending@[i as int].0@));
            let deadline: u64 = match self.armed.get(endpoint_id) {
                Some(deadline) => *deadline,
                None => later_than(now, delay),
            };
            let _ = armed.insert(endpoint_id, deadline);
            i = i + 1;
        }
        assert forall|k: Seq<char>| #[trigger] target.contains_key(k) implies armed@.contains_key(
            k,
        ) by {
            assert(alarms.contains_key(k));
            let j = choose|j: int| 0 <= j < pending@.len() && (#[trigger] pending@[j]).0@ == k;
            assert(armed@.contains_key(pending@[j].0@));
        }
        assert(armed@ =~= target);
        self.armed = armed;
    }

    /// The time at which the next retry is due.
    pub fn next_deadline(&self) -> (r: Option<u64>)
        ensures
            match r {
                Some(deadline) => {
                    &&& exists|k: Seq<char>| #[trigger]
                        self@.armed.contains_key(k) && self@.armed[k] == deadline
                    &&& forall|k: Seq<char>| #[trigger]
                        self@.armed.contains_key(k) ==> deadline <= self@.armed[k]
                },
                None => self@.armed == Map::<Seq<char>, u64>::empty(),
            },
    {
        let n: usize = self.armed.len();
        let ghost keys = self.armed.keys();
        if n == 0 {
            assert forall|k: Seq<char>| !(#[trigger] self.armed@.contains_key(k)) by {
                assert(keys.contains(k) == self.armed@.contains_key(k));
            }
            assert(self.armed@ =~= Map::empty());
            return None;
        }
        let mut best: u64 = *self.armed.value_at(0);
        let ghost mut at: int = 0;
        let mut i: usize = 1;
        while i < n
            invariant
                1 <= i <= n,
                n == keys.len(),
                keys == self.armed.keys(),
                0 <= at < i,
                best == self.armed@[keys[at]],
                forall|j: int| 0 <= j < i ==> best <= self.armed@[#[trigger] keys[j]],
            decreases n - i,
        {
            let deadline: u64 = *self.armed.value_at(i);
            if deadline < best {
                best = deadline;
                proof {
                    at = i as int;
                }
            }
            i = i + 1;
        }
        assert(keys.contains(keys[at]));
        assert(self@.armed.contains_key(keys[at]) && self@.armed[keys[at]] == best);
        assert forall|k: Seq<char>| #[trigger] self@.armed.contains_key(k) implies best
            <= self@.armed[k] by {
            assert(keys.contains(k));
        }
        Some(best)
    }

    /// Fires the retries that are due.
    pub fn fire_due_retries(&mut self, now: u64)
        ensures
            exists|order: Seq<Seq<char>>, offers: Seq<Seq<Offer>>|
                {
                    &&& lists_due(order, old(self)@.armed, now)
                    &&& offers.len() == order.len()
                    &&& final(self)@ == #[trigger] old(self)@.retried(now, order, offers)
                },
    {
        let due = self.due(now);
        let ghost order = due_ids(due@);
        let ghost mut offers: Seq<Seq<Offer>> = Seq::empty();
        let mut i: usize = 0;
        assert(order.take(0) =~= Seq::empty());
        while i < due.len()
            invariant
                i <= due@.len(),
                order == due_ids(due@),
                offers.len() == i,
                self.client@ == old(self).client@,
                self.manager@ == fired(
                    old(self).manager@,
                    old(self).client@,
                    order.take(i as int),
                    offers,
                ),
                all_but(self.armed@, old(self).armed@, order.take(i as int)),
            decreases due@.len() - i,
        {
            let endpoint_id = due[i].as_str();
            let ghost armed = self.armed@;
            let ghost now_order = order.take(i + 1);
            let _ = self.armed.remove(endpoint_id);
            let ghost before = self.manager@;
            self.manager.fire_retry_alarm(&mut self.client, endpoint_id);
            proof {
                let made = choose|made: Seq<Offer>|
                    self.manager@ == #[trigger] before.alarm_fired(
                        old(self).client@,
                        endpoint_id@,
                        made,
                    );
                lemma_fired_offers(
                    old(self).manager@,
                    old(self).client@,
                    order.take(i as int),
                    offers,
                    made,
                );
                offers = offers.push(made);
                assert(now_order.drop_last() =~= order.take(i as int));
                assert(now_order.last() == endpoint_id@);
                assert forall|k: Seq<char>|
                    self.armed@.contains_key(k) <==> old(self).armed@.contains_key(k) && !(
                    #[trigger] now_order.contains(k)) by {
                    lemma_contains_last(now_order, k);
                    assert(armed.contains_key(k) <==> old(self).armed@.contains_key(k)
                        && !order.take(i as int).contains(k));
                }
            }
            i = i + 1;
            assert(order.take(i as int) == now_order);
            assert(all_but(self.armed@, old(self).armed@, order.take(i as int)));
        }
        assert(order.take(i as int) =~= order);
        let ghost between = ActorView {
            bwu: fired(old(self)@.bwu, old(self)@.client, order, offers),
            armed: Map::new(
                |k: Seq<char>| old(self)@.armed.contains_key(k) && old(self)@.armed[k] > now,
                |k: Seq<char>| old(self)@.armed[k],
            ),
            ..old(self)@
        };
        assert forall|k: Seq<char>| self.armed@.contains_key(k) == #[trigger] between.armed.contains_key(
        k) by {
            assert(order.contains(k) <==> old(self)@.armed.contains_key(k) && old(self)@.armed[k]
                <= now);
        }
        assert(self.armed@ =~= between.armed);
        assert(self@ == between);
        self.reconcile_timers(now);
        assert(self@ == old(self)@.retried(now, order, offers));
    }

    /// The endpoints whose retry is due.
    fn due(&self, now: u64) -> (r: Vec<String>)
        ensures
            lists_due(due_ids(r@), self@.armed, now),
    {
        let n: usize = self.armed.len();
        let ghost keys = self.armed.keys();
        let mut r: Vec<String> = Vec::new();
        let mut i: usize = 0;
        assert(due_ids(r@) =~= Seq::empty());
        while i < n
            invariant
                i <= n,
                n == keys.len(),
                keys == self.armed.keys(),
                keys.no_duplicates(),
                due_ids(r@).no_duplicates(),
                forall|k: Seq<char>| #[trigger]
                    due_ids(r@).contains(k) <==> keys.take(i as int).contains(k)
                        && self.armed@[k] <= now,
            decreases n - i,
        {
            let deadline: u64 = *self.armed.value_at(i);
            let ghost before = due_ids(r@);
            let ghost grown = keys.take(i + 1);
            assert(grown.drop_last() =~= keys.take(i as int));
            assert(grown.last() == keys[i as int]);
            assert(!keys.take(i as int).contains(keys[i as int]));
            if deadline <= now {
                r.push(self.armed.key_at(i).to_owned());
                assert(due_ids(r@) =~= before.push(keys[i as int]));
                assert(!before.contains(keys[i as int]));
                assert forall|k: Seq<char>| #[trigger] due_ids(r@).contains(k) <==> grown.contains(
                    k,
                ) && self.armed@[k] <= now by {
                    lemma_contains_last(due_ids(r@), k);
                    lemma_contains_last(grown, k);
                    assert(due_ids(r@).drop_last() =~= before);
                }
            } else {
                assert forall|k: Seq<char>| #[trigger] due_ids(r@).contains(k) <==> grown.contains(
                    k,
                ) && self.armed@[k] <= now by {
                    lemma_contains_last(grown, k);
                }
            }
            i = i + 1;
        }
        assert(keys.take(n as int) =~= keys);
        assert forall|k: Seq<char>| #[trigger] due_ids(r@).contains(k) <==> self@.armed.contains_key(
            k,
        ) && self@.armed[k] <= now by {
            assert(keys.contains(k) <==> self.armed@.contains_key(k));
        }
        r
    }

    /// The channel of an endpoint: after an upgrade is completed, the new one.
    pub fn get_upgraded_channel(&self, endpoint_id: &str) -> (r: Option<&C>)
        ensures
            match r {
                Some(c) => self@.bwu.channels.contains_key(endpoint_id@) && c.channel()
                    == self@.bwu.channels[endpoint_id@],
                None => !self@.bwu.channels.contains_key(endpoint_id@),
            },
    {
        self.manager.channel_manager().get_channel_for_endpoint(endpoint_id)
    }

    /// Takes the channels that were closed or turned away.
    pub fn take_retired(&mut self) -> (r: Vec<C>)
        ensures
            manager::channel_list(r@) == old(self)@.bwu.retired,
            final(self)@ == (ActorView {
                bwu: BwuView { retired: Seq::empty(), ..old(self)@.bwu },
                ..old(self)@
            }),
    {
        self.manager.take_retired()
    }

    /// Takes the channels that were forgotten, or displaced by others.
    pub fn take_dropped(&mut self) -> (r: Vec<C>)
        ensures
            manager::channel_list(r@) == old(self)@.bwu.dropped,
            final(self)@ == (ActorView {
                bwu: BwuView { dropped: Seq::empty(), ..old(self)@.bwu },
                ..old(self)@
            }),
    {
        self.manager.take_dropped()
    }

    /// The manager of upgrades.
    pub fn manager(&self) -> (r: &BwuManager<C, B>)
        ensures
            r@ == self@.bwu,
    {
        &self.manager
    }
}

/// The command tells the client something.
spec fn tells_client<C: EndpointChannel>(cmd: BwuCommand<C>) -> bool {
    cmd is ConnectionInitiated || cmd is ConnectionAccepted || cmd is LocalEndpointAccepted || cmd
        is RemoteEndpointAccepted || cmd is Disconnected || cmd is SetUpgradeMediums
}

/// The command asks something.
spec fn asks<C: EndpointChannel>(cmd: BwuCommand<C>) -> bool {
    cmd is IsUpgradeOngoing || cmd is PendingRetryDelay || cmd is BandwidthChangedEvents
}

fn later_than(now: u64, delay: u64) -> (r: u64)
    ensures
        r == later(now, delay),
{
    if delay <= u64::MAX - now {
        now + delay
    } else {
        u64::MAX
    }
}

/// All timers but those of some endpoints.
spec fn all_but(
    armed: Map<Seq<char>, u64>,
    all: Map<Seq<char>, u64>,
    gone: Seq<Seq<char>>,
) -> bool {
    &&& forall|k: Seq<char>| #[trigger]
        armed.contains_key(k) <==> all.contains_key(k) && !gone.contains(k)
    &&& forall|k: Seq<char>| #[trigger] armed.contains_key(k) ==> armed[k] == all[k]
}

spec fn due_ids(due: Seq<String>) -> Seq<Seq<char>> {
    Seq::new(due.len(), |i: int| due[i]@)
}

proof fn lemma_contains_last(s: Seq<Seq<char>>, k: Seq<char>)
    requires
        s.len() > 0,
    ensures
        s.contains(k) <==> s.drop_last().contains(k) || s.last() == k,
{
    if s.contains(k) {
        let i = s.index_of(k);
        if i < s.len() - 1 {
            assert(s.drop_last()[i] == k);
        }
    }
    if s.drop_last().contains(k) {
        let i = s.drop_last().index_of(k);
        assert(s[i] == k);
    }
    if s.last() == k {
        assert(s[s.len() - 1] == k);
    }
}

proof fn lemma_fired_offers(
    bwu: BwuView,
    client: ClientView,
    order: Seq<Seq<char>>,
    offers: Seq<Seq<Offer>>,
    more: Seq<Offer>,
)
    requires
        offers.len() == order.len(),
    ensures
        fired(bwu, client, order, offers.push(more)) == fired(bwu, client, order, offers),
    decreases order.len(),
{
    if order.len() > 0 {
        lemma_fired_agree(bwu, client, order, offers, offers.push(more));
    }
}

proof fn lemma_fired_agree(
    bwu: BwuView,
    client: ClientView,
    order: Seq<Seq<char>>,
    a: Seq<Seq<Offer>>,
    b: Seq<Seq<Offer>>,
)
    requires
        order.len() <= a.len(),
        order.len() <= b.len(),
        forall|i: int| 0 <= i < order.len() ==> a[i] == b[i],
    ensures
        fired(bwu, client, order, a) == fired(bwu, client, order, b),
    decreases order.len(),
{
    if order.len() > 0 {
        lemma_fired_agree(bwu, client, order.drop_last(), a, b);
    }
}

/// A timer is armed exactly while a retry waits. One that is armed stays as it is, and a
/// new one is due its delay from now.
pub proof fn lemma_reconciled(a: ActorView, now: u64, endpoint_id: Seq<char>)
    ensures
        ({
            let b = a.reconciled(now);
            &&& b.bwu == a.bwu
            &&& b.client == a.client
            &&& b.armed.contains_key(endpoint_id) == a.bwu.alarms.contains_key(endpoint_id)
            &&& b.armed.contains_key(endpoint_id) && a.armed.contains_key(endpoint_id)
                ==> b.armed[endpoint_id] == a.armed[endpoint_id]
            &&& b.armed.contains_key(endpoint_id) && !a.armed.contains_key(endpoint_id)
                ==> b.armed[endpoint_id] == later(now, a.bwu.alarms[endpoint_id])
            &&& b.reconciled(now) == b
        }),
{
    assert(a.reconciled(now).reconciled(now).armed =~= a.reconciled(now).armed);
}

proof fn lemma_fired(
    a: BwuView,
    client: ClientView,
    order: Seq<Seq<char>>,
    offers: Seq<Seq<Offer>>,
    other: Seq<char>,
)
    requires
        !order.contains(other),
    ensures
        ({
            let b = fired(a, client, order, offers);
            &&& laws::untouched(a, b, other)
            &&& b.config == a.config
            &&& b.handlers.dom() == a.handlers.dom()
            &&& laws::retries_sound(a) ==> laws::retries_sound(b)
        }),
    decreases order.len(),
{
    if order.len() > 0 {
        let c = fired(a, client, order.drop_last(), offers);
        lemma_contains_last(order, other);
        lemma_fired(a, client, order.drop_last(), offers, other);
        laws::lemma_alarm_fired_keeps(c, client, order.last(), offers[order.len() - 1]);
        let b = c.alarm_fired(client, order.last(), offers[order.len() - 1]);
        assert(laws::untouched(c, b, other));
    }
}

/// Firing the retries that are due changes nothing for an endpoint whose retry is not
/// due: its retry goes on waiting, and is due when it was. Retries stay sound.
pub proof fn lemma_retried(
    a: ActorView,
    now: u64,
    order: Seq<Seq<char>>,
    offers: Seq<Seq<Offer>>,
    other: Seq<char>,
)
    requires
        lists_due(order, a.armed, now),
        !(a.armed.contains_key(other) && a.armed[other] <= now),
    ensures
        ({
            let b = a.retried(now, order, offers);
            &&& laws::untouched(a.bwu, b.bwu, other)
            &&& a.armed.contains_key(other) && a.bwu.alarms.contains_key(other)
                ==> b.armed.contains_key(other) && b.armed[other] == a.armed[other]
            &&& b.client == a.client
            &&& b.bwu.config == a.bwu.config
            &&& laws::retries_sound(a.bwu) ==> laws::retries_sound(b.bwu)
        }),
{
    lemma_fired(a.bwu, a.client, order, offers, other);
}

/// A retry is due its delay after it was set to wait, and at the end of time if that would
/// be later.
pub proof fn lemma_later(now: u64, delay: u64)
    ensures
        later(now, delay) >= now,
        now + delay <= u64::MAX ==> later(now, delay) == now + delay,
        now + delay > u64::MAX ==> later(now, delay) == u64::MAX,
{
}

/// A command that tells something of an endpoint makes it known of that endpoint, and does
/// nothing to any upgrade or timer.
pub proof fn lemma_told<C: EndpointChannel>(
    a: ActorView,
    endpoint_id: String,
    is_incoming: bool,
    auto_upgrade_bandwidth: bool,
    mediums: Vec<Medium>,
    o: Outcomes,
)
    ensures
        ({
            let e = endpoint_id@;
            let initiated = a.handled(
                BwuCommand::<C>::ConnectionInitiated {
                    endpoint_id,
                    is_incoming,
                    auto_upgrade_bandwidth,
                },
                o,
            );
            let accepted = a.handled(BwuCommand::<C>::ConnectionAccepted { endpoint_id }, o);
            let local = a.handled(BwuCommand::<C>::LocalEndpointAccepted { endpoint_id }, o);
            let remote = a.handled(BwuCommand::<C>::RemoteEndpointAccepted { endpoint_id }, o);
            let gone = a.handled(BwuCommand::<C>::Disconnected { endpoint_id }, o);
            let set = a.handled(BwuCommand::<C>::SetUpgradeMediums { endpoint_id, mediums }, o);
            let was = a.client.endpoint(e);
            &&& initiated.bwu == a.bwu && initiated.armed == a.armed
            &&& initiated.client.endpoint(e).initiated
            &&& initiated.client.endpoint(e).is_incoming == is_incoming
            &&& initiated.client.endpoint(e).auto_upgrade_bandwidth == auto_upgrade_bandwidth
            &&& accepted.bwu == a.bwu && accepted.armed == a.armed
            &&& accepted.client.endpoint(e) == EndpointView { connected: true, ..was }
            &&& local.bwu == a.bwu && local.armed == a.armed
            &&& local.client.endpoint(e) == EndpointView { local_accepted: true, ..was }
            &&& remote.bwu == a.bwu && remote.armed == a.armed
            &&& remote.client.endpoint(e) == EndpointView { remote_accepted: true, ..was }
            &&& gone.bwu == a.bwu && gone.armed == a.armed
            &&& !gone.client.endpoints.contains_key(e)
            &&& set.bwu == a.bwu && set.armed == a.armed
            &&& set.client.endpoint(e) == EndpointView { upgrade_mediums: mediums@, ..was }
        }),
{
    reveal(ActorView::handled);
}

/// A command that is about an upgrade is the step of that name, and keeps the timers. The
/// client is told of something only by a frame that came in. A question changes nothing.
pub proof fn lemma_commanded<C: EndpointChannel>(a: ActorView, cmd: BwuCommand<C>, o: Outcomes)
    ensures
        ({
            let b = a.handled(cmd, o);
            &&& b.armed == a.armed
            &&& match cmd {
                BwuCommand::RegisterChannel { endpoint_id, channel } => b.client == a.client
                    && b.bwu == a.bwu.registered(endpoint_id@, channel.channel()),
                BwuCommand::UnregisterChannel { endpoint_id, .. } => b.client == a.client && b.bwu
                    == a.bwu.unregistered(endpoint_id@),
                BwuCommand::InitiateBwu { endpoint_id, medium } => b.client == a.client && b.bwu
                    == a.bwu.initiated(a.client, endpoint_id@, medium, o.offers),
                BwuCommand::IncomingFrame { frame, endpoint_id, .. } => (b.bwu, b.client)
                    == a.bwu.received(a.client, frame@, endpoint_id@, o),
                BwuCommand::IncomingConnection { connection } => b.client == a.client && b.bwu
                    == a.bwu.connected(a.client, connection.channel.channel(), o),
                BwuCommand::EndpointDisconnect { service_id, endpoint_id, .. } => b.client
                    == a.client && b.bwu == a.bwu.disconnected(
                    a.client,
                    service_id@,
                    endpoint_id@,
                ),
                BwuCommand::Shutdown => b.client == a.client && b.bwu == a.bwu.shut_down(o.order),
                BwuCommand::IsUpgradeOngoing { .. } => b == a,
                BwuCommand::PendingRetryDelay { .. } => b == a,
                BwuCommand::BandwidthChangedEvents => b == a,
                _ => b.bwu == a.bwu,
            }
        }),
{
    reveal(ActorView::handled);
}

/// A retry that is fired is no longer armed as it was: if it waits again, it is due its new
/// delay from now.
pub proof fn lemma_fired_rearmed(
    a: ActorView,
    now: u64,
    order: Seq<Seq<char>>,
    offers: Seq<Seq<Offer>>,
    endpoint_id: Seq<char>,
)
    requires
        a.armed.contains_key(endpoint_id),
        a.armed[endpoint_id] <= now,
    ensures
        ({
            let b = a.retried(now, order, offers);
            &&& b.armed.contains_key(endpoint_id) == b.bwu.alarms.contains_key(endpoint_id)
            &&& b.armed.contains_key(endpoint_id) ==> b.armed[endpoint_id] >= now && (
            now + b.bwu.alarms[endpoint_id] <= u64::MAX ==> b.armed[endpoint_id] == now
                + b.bwu.alarms[endpoint_id])
        }),
{
}

/// A question is answered by what holds when it is asked, the last command by telling that
/// it was, and any other by telling that it is done.
pub proof fn lemma_answered<C: EndpointChannel>(a: ActorView, cmd: BwuCommand<C>, reply: BwuReply)
    requires
        a.replies(cmd, reply),
    ensures
        match cmd {
            BwuCommand::Shutdown => reply is Stopped,
            BwuCommand::IsUpgradeOngoing { endpoint_id } => reply == BwuReply::UpgradeOngoing(
                a.bwu.in_progress.contains(endpoint_id@),
            ),
            BwuCommand::PendingRetryDelay { endpoint_id } => if a.bwu.alarms.contains_key(
                endpoint_id@,
            ) {
                reply == BwuReply::RetryDelay(Some(a.bwu.alarms[endpoint_id@]))
            } else {
                reply == BwuReply::RetryDelay(None)
            },
            BwuCommand::BandwidthChangedEvents => {
                &&& reply matches BwuReply::Events(events)
                &&& events@.len() == a.client.bandwidth_changed.len()
                &&& forall|i: int|
                    0 <= i < events@.len() ==> (#[trigger] events@[i]).0@
                        == a.client.bandwidth_changed[i].0 && events@[i].1
                        == a.client.bandwidth_changed[i].1
            },
            _ => reply is Done,
        },
{
}

/// The retries that are due are those whose time has come, and each is fired, one after the
/// other.
pub proof fn lemma_each_due_fired(
    a: BwuView,
    client: ClientView,
    armed: Map<Seq<char>, u64>,
    now: u64,
    order: Seq<Seq<char>>,
    offers: Seq<Seq<Offer>>,
    endpoint_id: Seq<char>,
)
    requires
        lists_due(order, armed, now),
        offers.len() == order.len(),
    ensures
        order.contains(endpoint_id) == (armed.contains_key(endpoint_id) && armed[endpoint_id]
            <= now),
        fired(a, client, Seq::empty(), Seq::empty()) == a,
        forall|i: int|
            0 <= i < order.len() ==> #[trigger] fired(a, client, order.take(i + 1), offers)
                == fired(a, client, order.take(i), offers).alarm_fired(
                client,
                order[i],
                offers[i],
            ),
        forall|i: int, j: int| 0 <= i < j < order.len() ==> order[i] != order[j],
{
    assert forall|i: int| 0 <= i < order.len() implies #[trigger] fired(
        a,
        client,
        order.take(i + 1),
        offers,
    ) == fired(a, client, order.take(i), offers).alarm_fired(client, order[i], offers[i]) by {
        assert(order.take(i + 1).drop_last() =~= order.take(i));
        assert(order.take(i + 1).last() == order[i]);
    }
}

} // verus!

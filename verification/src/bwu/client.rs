//! What the local device knows of its connections.

use vstd::prelude::*;

use crate::bwu::str_map;
use crate::bwu::str_map::StrMap;
use crate::mediums::Medium;

verus! {

/// What is known of one endpoint.
struct EndpointState {
    initiated: bool,
    connected: bool,
    local_accepted: bool,
    remote_accepted: bool,
    is_incoming: bool,
    auto_upgrade_bandwidth: bool,
    upgrade_mediums: Vec<Medium>,
}

/// What is known of one endpoint.
pub struct EndpointView {
    /// A connection was initiated.
    pub initiated: bool,
    /// The connection is established.
    pub connected: bool,
    pub local_accepted: bool,
    pub remote_accepted: bool,
    /// The other side asked for the connection.
    pub is_incoming: bool,
    pub auto_upgrade_bandwidth: bool,
    /// The mediums to which the connection may be upgraded, the best first.
    pub upgrade_mediums: Seq<Medium>,
}

impl EndpointView {
    /// What is known of an endpoint before anything happened.
    pub open spec fn unknown() -> EndpointView {
        EndpointView {
            initiated: false,
            connected: false,
            local_accepted: false,
            remote_accepted: false,
            is_incoming: false,
            auto_upgrade_bandwidth: false,
            upgrade_mediums: Seq::empty(),
        }
    }
}

impl View for EndpointState {
    type V = EndpointView;

    closed spec fn view(&self) -> EndpointView {
        EndpointView {
            initiated: self.initiated,
            connected: self.connected,
            local_accepted: self.local_accepted,
            remote_accepted: self.remote_accepted,
            is_incoming: self.is_incoming,
            auto_upgrade_bandwidth: self.auto_upgrade_bandwidth,
            upgrade_mediums: self.upgrade_mediums@,
        }
    }
}

/// What the local device knows of its connections.
pub struct ClientProxy {
    client_id: i64,
    local_endpoint_id: String,
    last_local_endpoint_id: String,
    endpoints: StrMap<EndpointState>,
    bandwidth_changed: Vec<(String, Medium)>,
}

/// What [`ClientProxy`] stands for.
#[verifier::ext_equal]
pub struct ClientView {
    pub client_id: i64,
    pub local_endpoint_id: Seq<char>,
    pub last_local_endpoint_id: Seq<char>,
    pub endpoints: Map<Seq<char>, EndpointView>,
    /// The upgrades that were completed: each endpoint with its new medium.
    pub bandwidth_changed: Seq<(Seq<char>, Medium)>,
}

impl ClientView {
    /// What is known of an endpoint.
    pub open spec fn endpoint(self, endpoint_id: Seq<char>) -> EndpointView {
        if self.endpoints.contains_key(endpoint_id) {
            self.endpoints[endpoint_id]
        } else {
            EndpointView::unknown()
        }
    }

    /// What is known after one more call.
    pub open spec fn after(self, call: ClientCall) -> ClientView {
        let e = self.endpoint(call.about());
        match call {
            ClientCall::Initiated { endpoint_id, is_incoming, auto_upgrade_bandwidth } => {
                self.with_endpoint(
                    endpoint_id,
                    EndpointView { initiated: true, is_incoming, auto_upgrade_bandwidth, ..e },
                )
            },
            ClientCall::LocalAccepted { endpoint_id } => self.with_endpoint(
                endpoint_id,
                EndpointView { local_accepted: true, ..e },
            ),
            ClientCall::RemoteAccepted { endpoint_id } => self.with_endpoint(
                endpoint_id,
                EndpointView { remote_accepted: true, ..e },
            ),
            ClientCall::Accepted { endpoint_id } => self.with_endpoint(
                endpoint_id,
                EndpointView { connected: true, ..e },
            ),
            ClientCall::Disconnected { endpoint_id } => ClientView {
                endpoints: self.endpoints.remove(endpoint_id),
                ..self
            },
            ClientCall::UpgradeMediums { endpoint_id, mediums } => self.with_endpoint(
                endpoint_id,
                EndpointView { upgrade_mediums: mediums, ..e },
            ),
            ClientCall::BandwidthChanged { endpoint_id, medium } => ClientView {
                bandwidth_changed: self.bandwidth_changed.push((endpoint_id, medium)),
                ..self
            },
        }
    }

    /// What is known after some calls, one after the other.
    pub open spec fn after_all(self, calls: Seq<ClientCall>) -> ClientView
        decreases calls.len(),
    {
        if calls.len() == 0 {
            self
        } else {
            self.after_all(calls.drop_last()).after(calls.last())
        }
    }

    pub open spec fn with_endpoint(self, endpoint_id: Seq<char>, e: EndpointView) -> ClientView {
        ClientView { endpoints: self.endpoints.insert(endpoint_id, e), ..self }
    }
}

/// One call that changes what a client knows.
pub enum ClientCall {
    Initiated { endpoint_id: Seq<char>, is_incoming: bool, auto_upgrade_bandwidth: bool },
    LocalAccepted { endpoint_id: Seq<char> },
    RemoteAccepted { endpoint_id: Seq<char> },
    Accepted { endpoint_id: Seq<char> },
    Disconnected { endpoint_id: Seq<char> },
    UpgradeMediums { endpoint_id: Seq<char>, mediums: Seq<Medium> },
    BandwidthChanged { endpoint_id: Seq<char>, medium: Medium },
}

impl ClientCall {
    /// The endpoint that the call is about.
    pub open spec fn about(self) -> Seq<char> {
        match self {
            ClientCall::Initiated { endpoint_id, .. } => endpoint_id,
            ClientCall::LocalAccepted { endpoint_id } => endpoint_id,
            ClientCall::RemoteAccepted { endpoint_id } => endpoint_id,
            ClientCall::Accepted { endpoint_id } => endpoint_id,
            ClientCall::Disconnected { endpoint_id } => endpoint_id,
            ClientCall::UpgradeMediums { endpoint_id, .. } => endpoint_id,
            ClientCall::BandwidthChanged { endpoint_id, .. } => endpoint_id,
        }
    }
}

/// `call` is among the calls, and its endpoint did not disconnect since.
pub open spec fn holds(calls: Seq<ClientCall>, call: ClientCall) -> bool
    decreases calls.len(),
{
    if calls.len() == 0 {
        false
    } else if calls.last() == call {
        true
    } else if calls.last() == (ClientCall::Disconnected { endpoint_id: call.about() }) {
        false
    } else {
        holds(calls.drop_last(), call)
    }
}

/// What the latest initiation of an endpoint told of who asked for the connection; the
/// local device, if there was none since the endpoint disconnected.
pub open spec fn latest_is_incoming(calls: Seq<ClientCall>, endpoint_id: Seq<char>) -> bool
    decreases calls.len(),
{
    if calls.len() == 0 {
        false
    } else if calls.last() is Initiated && calls.last().about() == endpoint_id {
        calls.last()->is_incoming
    } else if calls.last() == (ClientCall::Disconnected { endpoint_id }) {
        false
    } else {
        latest_is_incoming(calls.drop_last(), endpoint_id)
    }
}

/// A side has accepted the connection to an endpoint if and only if that was told, and the
/// endpoint did not disconnect since. Nothing else makes it so.
pub proof fn lemma_accepted(client: ClientView, calls: Seq<ClientCall>, endpoint_id: Seq<char>)
    requires
        client.endpoints == Map::<Seq<char>, EndpointView>::empty(),
    ensures
        client.after_all(calls).endpoint(endpoint_id).local_accepted == holds(
            calls,
            ClientCall::LocalAccepted { endpoint_id },
        ),
        client.after_all(calls).endpoint(endpoint_id).remote_accepted == holds(
            calls,
            ClientCall::RemoteAccepted { endpoint_id },
        ),
    decreases calls.len(),
{
    if calls.len() > 0 {
        lemma_accepted(client, calls.drop_last(), endpoint_id);
    }
}

/// An endpoint is connected if and only if it was told that its connection is established,
/// and the endpoint did not disconnect since. That both sides have accepted is not enough.
pub proof fn lemma_connected(client: ClientView, calls: Seq<ClientCall>, endpoint_id: Seq<char>)
    requires
        client.endpoints == Map::<Seq<char>, EndpointView>::empty(),
    ensures
        client.after_all(calls).endpoint(endpoint_id).connected == holds(
            calls,
            ClientCall::Accepted { endpoint_id },
        ),
    decreases calls.len(),
{
    if calls.len() > 0 {
        lemma_connected(client, calls.drop_last(), endpoint_id);
    }
}

/// Whether the other side asked for a connection is as the latest initiation told.
pub proof fn lemma_is_incoming(client: ClientView, calls: Seq<ClientCall>, endpoint_id: Seq<char>)
    requires
        client.endpoints == Map::<Seq<char>, EndpointView>::empty(),
    ensures
        client.after_all(calls).endpoint(endpoint_id).is_incoming == latest_is_incoming(
            calls,
            endpoint_id,
        ),
    decreases calls.len(),
{
    if calls.len() > 0 {
        lemma_is_incoming(client, calls.drop_last(), endpoint_id);
    }
}

/// A new client knows of no endpoint and of no upgrade, and its local endpoint id is also
/// its last one.
pub proof fn lemma_new_client(client_id: i64, local_endpoint_id: Seq<char>, endpoint_id: Seq<char>)
    ensures
        ({
            let client = new_client(client_id, local_endpoint_id);
            &&& client.client_id == client_id
            &&& client.local_endpoint_id == local_endpoint_id
            &&& client.last_local_endpoint_id == local_endpoint_id
            &&& !client.endpoints.contains_key(endpoint_id)
            &&& !client.endpoint(endpoint_id).connected
            &&& !client.endpoint(endpoint_id).is_incoming
            &&& client.endpoint(endpoint_id).upgrade_mediums.len() == 0
            &&& client.bandwidth_changed.len() == 0
        }),
{
}

/// Each call changes what it is about and nothing else: no other endpoint, and not who the
/// local device is.
pub proof fn lemma_call_about_one(
    client: ClientView,
    call: ClientCall,
    endpoint_id: Seq<char>,
    other: Seq<char>,
)
    requires
        call.about() == endpoint_id,
        other != endpoint_id,
    ensures
        ({
            let after = client.after(call);
            let was = client.endpoint(endpoint_id);
            let now = after.endpoint(endpoint_id);
            &&& after.client_id == client.client_id
            &&& after.local_endpoint_id == client.local_endpoint_id
            &&& after.last_local_endpoint_id == client.last_local_endpoint_id
            &&& after.endpoint(other) == client.endpoint(other)
            &&& after.endpoints.contains_key(other) == client.endpoints.contains_key(other)
            &&& !(call is BandwidthChanged) ==> after.bandwidth_changed == client.bandwidth_changed
            &&& match call {
                ClientCall::Initiated { endpoint_id: _, is_incoming, auto_upgrade_bandwidth } => {
                    &&& now.initiated
                    &&& now.is_incoming == is_incoming
                    &&& now.auto_upgrade_bandwidth == auto_upgrade_bandwidth
                    &&& now.connected == was.connected
                    &&& now.local_accepted == was.local_accepted
                    &&& now.remote_accepted == was.remote_accepted
                    &&& now.upgrade_mediums == was.upgrade_mediums
                },
                ClientCall::LocalAccepted { .. } => now == EndpointView {
                    local_accepted: true,
                    ..was
                },
                ClientCall::RemoteAccepted { .. } => now == EndpointView {
                    remote_accepted: true,
                    ..was
                },
                ClientCall::Accepted { .. } => now == EndpointView { connected: true, ..was },
                ClientCall::Disconnected { .. } => {
                    &&& !after.endpoints.contains_key(endpoint_id)
                    &&& !now.initiated && !now.connected && !now.local_accepted && !now.remote_accepted
                    &&& !now.is_incoming && !now.auto_upgrade_bandwidth
                    &&& now.upgrade_mediums.len() == 0
                },
                ClientCall::UpgradeMediums { endpoint_id: _, mediums } => now == EndpointView {
                    upgrade_mediums: mediums,
                    ..was
                },
                ClientCall::BandwidthChanged { endpoint_id: _, medium } => {
                    &&& now == was
                    &&& after.bandwidth_changed == client.bandwidth_changed.push(
                        (endpoint_id, medium),
                    )
                },
            }
        }),
{
}

/// The mediums to which a connection may be upgraded are those that were set last, and none
/// if none were set since the endpoint disconnected.
pub open spec fn latest_mediums(calls: Seq<ClientCall>, endpoint_id: Seq<char>) -> Seq<Medium>
    decreases calls.len(),
{
    if calls.len() == 0 {
        Seq::empty()
    } else if calls.last() is UpgradeMediums && calls.last().about() == endpoint_id {
        calls.last()->mediums
    } else if calls.last() == (ClientCall::Disconnected { endpoint_id }) {
        Seq::empty()
    } else {
        latest_mediums(calls.drop_last(), endpoint_id)
    }
}

/// The mediums to which a connection may be upgraded are as they were set last.
pub proof fn lemma_upgrade_mediums(
    client: ClientView,
    calls: Seq<ClientCall>,
    endpoint_id: Seq<char>,
)
    requires
        client.endpoints == Map::<Seq<char>, EndpointView>::empty(),
    ensures
        client.after_all(calls).endpoint(endpoint_id).upgrade_mediums == latest_mediums(
            calls,
            endpoint_id,
        ),
    decreases calls.len(),
{
    if calls.len() > 0 {
        lemma_upgrade_mediums(client, calls.drop_last(), endpoint_id);
    }
}

/// The upgrades that were completed are those that were told of, in that order, and none is
/// ever forgotten.
pub proof fn lemma_upgrades_in_order(client: ClientView, calls: Seq<ClientCall>, more: ClientCall)
    ensures
        ({
            let before = client.after_all(calls).bandwidth_changed;
            let after = client.after_all(calls.push(more)).bandwidth_changed;
            match more {
                ClientCall::BandwidthChanged { endpoint_id, medium } => after == before.push(
                    (endpoint_id, medium),
                ),
                _ => after == before,
            }
        }),
{
    assert(calls.push(more).drop_last() =~= calls);
}

/// `events` is a list of upgrades.
pub open spec fn events_are(
    events: Seq<(String, Medium)>,
    upgrades: Seq<(Seq<char>, Medium)>,
) -> bool {
    &&& events.len() == upgrades.len()
    &&& forall|i: int|
        0 <= i < events.len() ==> ((#[trigger] events[i]).0@, events[i].1) == upgrades[i]
}

spec fn events_view(events: Seq<(String, Medium)>) -> Seq<(Seq<char>, Medium)> {
    Seq::new(events.len(), |i: int| (events[i].0@, events[i].1))
}

impl View for ClientProxy {
    type V = ClientView;

    closed spec fn view(&self) -> ClientView {
        ClientView {
            client_id: self.client_id,
            local_endpoint_id: self.local_endpoint_id@,
            last_local_endpoint_id: self.last_local_endpoint_id@,
            endpoints: str_map::map_view(self.endpoints@),
            bandwidth_changed: events_view(self.bandwidth_changed@),
        }
    }
}

impl Default for ClientProxy {
    fn default() -> (r: ClientProxy)
        ensures
            r@ == new_client(0, "LOCAL"@),
    {
        Self::new(0, "LOCAL")
    }
}

/// A client that knows of no endpoint yet.
pub open spec fn new_client(client_id: i64, local_endpoint_id: Seq<char>) -> ClientView {
    ClientView {
        client_id,
        local_endpoint_id,
        last_local_endpoint_id: local_endpoint_id,
        endpoints: Map::empty(),
        bandwidth_changed: Seq::empty(),
    }
}

impl ClientProxy {
    pub fn new(client_id: i64, local_endpoint_id: &str) -> (r: ClientProxy)
        ensures
            r@ == new_client(client_id, local_endpoint_id@),
    {
        let r = ClientProxy {
            client_id,
            local_endpoint_id: local_endpoint_id.to_owned(),
            last_local_endpoint_id: local_endpoint_id.to_owned(),
            endpoints: StrMap::new(),
            bandwidth_changed: Vec::new(),
        };
        assert(r@ =~= new_client(client_id, local_endpoint_id@));
        r
    }

    pub fn client_id(&self) -> (r: i64)
        ensures
            r == self@.client_id,
    {
        self.client_id
    }

    pub fn local_endpoint_id(&self) -> (r: &str)
        ensures
            r@ == self@.local_endpoint_id,
    {
        self.local_endpoint_id.as_str()
    }

    pub fn last_local_endpoint_id(&self) -> (r: &str)
        ensures
            r@ == self@.last_local_endpoint_id,
    {
        self.last_local_endpoint_id.as_str()
    }

    /// Takes out what is known of an endpoint.
    fn take_entry(&mut self, endpoint_id: &str) -> (r: EndpointState)
        ensures
            r@ == old(self)@.endpoint(endpoint_id@),
            final(self)@ == (ClientView {
                endpoints: old(self)@.endpoints.remove(endpoint_id@),
                ..old(self)@
            }),
    {
        broadcast use str_map::lemma_map_view_remove;

        match self.endpoints.remove(endpoint_id) {
            Some(e) => e,
            None => EndpointState {
                initiated: false,
                connected: false,
                local_accepted: false,
                remote_accepted: false,
                is_incoming: false,
                auto_upgrade_bandwidth: false,
                upgrade_mediums: Vec::new(),
            },
        }
    }

    fn put_entry(&mut self, endpoint_id: &str, e: EndpointState)
        ensures
            final(self)@ == old(self)@.with_endpoint(endpoint_id@, e@),
    {
        broadcast use str_map::lemma_map_view_insert;

        let _ = self.endpoints.insert(endpoint_id, e);
    }

    /// A connection was initiated; it is not accepted yet. `is_incoming` tells that
    /// the other side asked for it.
    pub fn on_connection_initiated(
        &mut self,
        endpoint_id: &str,
        is_incoming: bool,
        auto_upgrade_bandwidth: bool,
    )
        ensures
            final(self)@ == old(self)@.after(
                ClientCall::Initiated {
                    endpoint_id: endpoint_id@,
                    is_incoming,
                    auto_upgrade_bandwidth,
                },
            ),
    {
        let mut e = self.take_entry(endpoint_id);
        e.initiated = true;
        e.is_incoming = is_incoming;
        e.auto_upgrade_bandwidth = auto_upgrade_bandwidth;
        self.put_entry(endpoint_id, e);
        assert(self@.endpoints =~= old(self)@.endpoints.insert(endpoint_id@, e@));
    }

    pub fn local_endpoint_accepted_connection(&mut self, endpoint_id: &str)
        ensures
            final(self)@ == old(self)@.after(
                ClientCall::LocalAccepted { endpoint_id: endpoint_id@ },
            ),
    {
        let mut e = self.take_entry(endpoint_id);
        e.local_accepted = true;
        self.put_entry(endpoint_id, e);
        assert(self@.endpoints =~= old(self)@.endpoints.insert(endpoint_id@, e@));
    }

    pub fn remote_endpoint_accepted_connection(&mut self, endpoint_id: &str)
        ensures
            final(self)@ == old(self)@.after(
                ClientCall::RemoteAccepted { endpoint_id: endpoint_id@ },
            ),
    {
        let mut e = self.take_entry(endpoint_id);
        e.remote_accepted = true;
        self.put_entry(endpoint_id, e);
        assert(self@.endpoints =~= old(self)@.endpoints.insert(endpoint_id@, e@));
    }

    /// The connection is established.
    pub fn on_connection_accepted(&mut self, endpoint_id: &str)
        ensures
            final(self)@ == old(self)@.after(
                ClientCall::Accepted { endpoint_id: endpoint_id@ },
            ),
    {
        let mut e = self.take_entry(endpoint_id);
        e.connected = true;
        self.put_entry(endpoint_id, e);
        assert(self@.endpoints =~= old(self)@.endpoints.insert(endpoint_id@, e@));
    }

    /// The connection is gone, and what was known of the endpoint with it.
    pub fn on_disconnected(&mut self, endpoint_id: &str)
        ensures
            final(self)@ == old(self)@.after(
                ClientCall::Disconnected { endpoint_id: endpoint_id@ },
            ),
    {
        let _ = self.take_entry(endpoint_id);
    }

    /// Sets the mediums to which a connection may be upgraded, the best first.
    pub fn set_upgrade_mediums(&mut self, endpoint_id: &str, mediums: Vec<Medium>)
        ensures
            final(self)@ == old(self)@.after(
                ClientCall::UpgradeMediums { endpoint_id: endpoint_id@, mediums: mediums@ },
            ),
    {
        let mut e = self.take_entry(endpoint_id);
        e.upgrade_mediums = mediums;
        self.put_entry(endpoint_id, e);
        assert(self@.endpoints =~= old(self)@.endpoints.insert(endpoint_id@, e@));
    }

    /// The mediums to which a connection may be upgraded, the best first.
    pub fn upgrade_mediums(&self, endpoint_id: &str) -> (r: Vec<Medium>)
        ensures
            r@ == self@.endpoint(endpoint_id@).upgrade_mediums,
    {
        match self.endpoints.get(endpoint_id) {
            Some(e) => vstd::slice::slice_to_vec(e.upgrade_mediums.as_slice()),
            None => Vec::new(),
        }
    }

    /// Whether both sides have accepted the connection.
    pub fn is_connection_accepted(&self, endpoint_id: &str) -> (r: bool)
        ensures
            r == {
                let e = self@.endpoint(endpoint_id@);
                e.local_accepted && e.remote_accepted
            },
    {
        match self.endpoints.get(endpoint_id) {
            Some(e) => e.local_accepted && e.remote_accepted,
            None => false,
        }
    }

    /// Whether the connection is established.
    pub fn is_connected_to_endpoint(&self, endpoint_id: &str) -> (r: bool)
        ensures
            r == self@.endpoint(endpoint_id@).connected,
    {
        match self.endpoints.get(endpoint_id) {
            Some(e) => e.connected,
            None => false,
        }
    }

    /// Whether the other side asked for the connection.
    pub fn is_incoming_connection(&self, endpoint_id: &str) -> (r: bool)
        ensures
            r == self@.endpoint(endpoint_id@).is_incoming,
    {
        match self.endpoints.get(endpoint_id) {
            Some(e) => e.is_incoming,
            None => false,
        }
    }

    pub fn auto_upgrade_bandwidth(&self, endpoint_id: &str) -> (r: bool)
        ensures
            r == self@.endpoint(endpoint_id@).auto_upgrade_bandwidth,
    {
        match self.endpoints.get(endpoint_id) {
            Some(e) => e.auto_upgrade_bandwidth,
            None => false,
        }
    }

    /// An upgrade of the endpoint to `medium` was completed.
    pub fn on_bandwidth_changed(&mut self, endpoint_id: &str, medium: Medium)
        ensures
            final(self)@ == old(self)@.after(
                ClientCall::BandwidthChanged { endpoint_id: endpoint_id@, medium },
            ),
    {
        self.bandwidth_changed.push((endpoint_id.to_owned(), medium));
        assert(self@.bandwidth_changed =~= old(self)@.bandwidth_changed.push(
            (endpoint_id@, medium),
        ));
    }

    /// The upgrades that were completed, in order.
    pub fn bandwidth_changed_events(&self) -> (r: &[(String, Medium)])
        ensures
            events_are(r@, self@.bandwidth_changed),
    {
        self.bandwidth_changed.as_slice()
    }

    /// A copy of the upgrades that were completed, in order.
    pub fn copy_events(&self) -> (r: Vec<(String, Medium)>)
        ensures
            events_are(r@, self@.bandwidth_changed),
    {
        let mut r: Vec<(String, Medium)> = Vec::new();
        let mut i: usize = 0;
        while i < self.bandwidth_changed.len()
            invariant
                i <= self.bandwidth_changed@.len(),
                r@.len() == i,
                forall|j: int|
                    0 <= j < i ==> ((#[trigger] r@[j]).0@, r@[j].1) == self@.bandwidth_changed[j],
            decreases self.bandwidth_changed@.len() - i,
        {
            let (endpoint_id, medium) = &self.bandwidth_changed[i];
            r.push((endpoint_id.clone(), *medium));
            i = i + 1;
        }
        r
    }
}

} // verus!

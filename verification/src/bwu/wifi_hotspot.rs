//! Upgrades to a hotspot.
//!
//! The side that offers the upgrade sets up a hotspot, listens on its gateway, and tells
//! the peer how to join it. The peer joins it and dials the gateway. What is decided
//! stands here; what sets up and joins a hotspot is a [`SoftAp`].

use vstd::prelude::*;

use crate::bwu::model;
use crate::bwu::str_map::StrMap;
use crate::bwu::wifi_lan::{DialTarget, DialTargetView};
use crate::frame_laws;
use crate::frames;
use crate::frames::for_bwu_wifi_hotspot_path_available;
use crate::mediums::Medium;
use crate::proto::bandwidth_upgrade_negotiation_frame as bwu;
use crate::proto::bandwidth_upgrade_negotiation_frame::upgrade_path_info as upi;
use crate::text;
use crate::validator;
use crate::wire;

verus! {

/// What channels over a hotspot are called.
pub const CHANNEL_NAME: &'static str = "wifi-hotspot";

/// How to join a hotspot, and its addresses.
#[derive(Debug)]
pub struct HotspotCreds {
    pub ssid: String,
    pub password: String,
    /// The frequency in MHz, by which the hotspot is found faster.
    pub frequency: i32,
    /// The address that a peer dials.
    pub gateway: [u8; 4],
    /// The address that listeners are bound to.
    pub bind_ip: [u8; 4],
}

/// What [`HotspotCreds`] stands for.
#[verifier::ext_equal]
pub struct HotspotCredsView {
    pub ssid: Seq<char>,
    pub password: Seq<char>,
    pub frequency: i32,
    pub gateway: Seq<u8>,
    pub bind_ip: Seq<u8>,
}

impl View for HotspotCreds {
    type V = HotspotCredsView;

    open spec fn view(&self) -> HotspotCredsView {
        HotspotCredsView {
            ssid: self.ssid@,
            password: self.password@,
            frequency: self.frequency,
            gateway: self.gateway@,
            bind_ip: self.bind_ip@,
        }
    }
}

impl Clone for HotspotCreds {
    fn clone(&self) -> (r: HotspotCreds)
        ensures
            r@ == self@,
    {
        HotspotCreds {
            ssid: self.ssid.clone(),
            password: self.password.clone(),
            frequency: self.frequency,
            gateway: self.gateway,
            bind_ip: self.bind_ip,
        }
    }
}

/// One call of a [`SoftAp`], and what it gave.
pub enum SoftApCall {
    Start(Seq<char>, Option<HotspotCredsView>),
    Join(HotspotCredsView, bool),
    Stop(Seq<char>),
    Leave,
}

/// What sets up and joins a hotspot. What a call gives is up to the platform; that it is
/// recorded is not.
pub trait SoftAp: Sized {
    /// The calls so far.
    closed spec fn calls(&self) -> Seq<SoftApCall> {
        arbitrary()
    }

    /// Whether a hotspot is joined.
    closed spec fn joined(&self) -> bool {
        arbitrary()
    }

    /// Sets up a hotspot for a service; `None` if that fails.
    fn start(&mut self, service_id: &str) -> (r: Option<HotspotCreds>)
        ensures
            final(self).calls() == old(self).calls().push(
                SoftApCall::Start(service_id@, wire::opt_view(r)),
            ),
    ;

    /// Joins a hotspot; `None` if that fails.
    fn connect_as_sta(&mut self, creds: &HotspotCreds) -> (r: Option<()>)
        ensures
            final(self).calls() == old(self).calls().push(SoftApCall::Join(creds@, r is Some)),
    ;

    /// Tears down the hotspot of a service.
    fn stop(&mut self, service_id: &str)
        ensures
            final(self).calls() == old(self).calls().push(SoftApCall::Stop(service_id@)),
    ;

    /// Leaves the hotspot that was joined.
    fn disconnect_sta(&mut self)
        ensures
            final(self).calls() == old(self).calls().push(SoftApCall::Leave),
    ;

    /// Whether a hotspot is joined.
    fn is_connected_to_hotspot(&self) -> (r: bool)
        ensures
            r == self.joined(),
    ;
}

/// What has to be done to offer the medium.
pub enum HotspotStep {
    /// This frame offers the hotspot; an empty one if there is none.
    Offer(Vec<u8>),
    /// The hotspot is set up: a listener has to be bound to its address, on any port. What
    /// came of it is told to [`WifiHotspotBwuHandler::listening`].
    Listen { creds: HotspotCreds },
}

struct HotspotListener {
    port: u16,
    creds: HotspotCreds,
}

/// What decides over upgrades to a hotspot.
pub struct WifiHotspotBwuHandler<A: SoftAp> {
    softap: A,
    listeners: StrMap<HotspotListener>,
}

/// The hotspots that are set up, each with the port of its listener.
pub type Hotspots = Map<Seq<char>, (HotspotCredsView, u16)>;

spec fn hotspots_view(m: Map<Seq<char>, HotspotListener>) -> Hotspots {
    Map::new(|k: Seq<char>| m.contains_key(k), |k: Seq<char>| (m[k].creds@, m[k].port))
}

/// The offer of a hotspot.
pub open spec fn hotspot_path(creds: HotspotCredsView, port: u16) -> bwu::UpgradePathInfoView {
    bwu::UpgradePathInfoView {
        medium: Some(upi::Medium::WifiHotspot.value()),
        supports_client_introduction_ack: Some(true),
        supports_disabling_encryption: Some(false),
        wifi_hotspot_credentials: Some(
            upi::WifiHotspotCredentialsView {
                ssid: Some(creds.ssid),
                password: Some(creds.password),
                port: Some(port as i32),
                gateway: Some(text::dotted(creds.gateway)),
                frequency: Some(creds.frequency),
                ..upi::WifiHotspotCredentialsView::unset()
            },
        ),
        ..bwu::UpgradePathInfoView::unset()
    }
}

/// The hotspot that an offer asks to join, and the port to dial: it has a gateway, which
/// is an IPv4 address, and a port.
pub open spec fn hotspot_offered(info: bwu::UpgradePathInfoView) -> Option<
    (HotspotCredsView, u16),
> {
    match info.wifi_hotspot_credentials {
        Some(creds) => match (creds.gateway, creds.port) {
            (Some(gateway), Some(port)) => match text::address_of(gateway) {
                Some(gateway) => if 0 <= port <= u16::MAX {
                    Some(
                        (
                            HotspotCredsView {
                                ssid: match creds.ssid {
                                    Some(ssid) => ssid,
                                    None => Seq::empty(),
                                },
                                password: match creds.password {
                                    Some(password) => password,
                                    None => Seq::empty(),
                                },
                                frequency: match creds.frequency {
                                    Some(frequency) => frequency,
                                    None => (-1) as i32,
                                },
                                gateway,
                                bind_ip: gateway,
                            },
                            port as u16,
                        ),
                    )
                } else {
                    None
                },
                None => None,
            },
            _ => None,
        },
        None => None,
    }
}

fn text_or_empty(s: &Option<String>) -> (r: String)
    ensures
        r@ == match wire::opt_view(*s) {
            Some(s) => s,
            None => Seq::empty(),
        },
{
    match s {
        Some(s) => s.clone(),
        None => {
            let r = String::new();
            assert(r@ =~= Seq::empty());
            r
        },
    }
}

fn offer(creds: &HotspotCreds, port: u16) -> (r: Vec<u8>)
    ensures
        r@ == frames::path_available_bytes(hotspot_path(creds@, port)),
{
    let credentials = upi::WifiHotspotCredentials {
        ssid: Some(creds.ssid.clone()),
        password: Some(creds.password.clone()),
        port: Some(port as i32),
        gateway: Some(text::address_text(&creds.gateway)),
        frequency: Some(creds.frequency),
        ..Default::default()
    };
    for_bwu_wifi_hotspot_path_available(credentials, false)
}

fn offered(upgrade_path_info: &bwu::UpgradePathInfo) -> (r: Option<(HotspotCreds, u16)>)
    ensures
        match r {
            Some((creds, port)) => hotspot_offered(upgrade_path_info@) == Some((creds@, port))
                && creds.gateway@ == creds.bind_ip@,
            None => hotspot_offered(upgrade_path_info@) is None,
        },
{
    let creds = match &upgrade_path_info.wifi_hotspot_credentials {
        Some(creds) => creds,
        None => return None,
    };
    let gateway = match &creds.gateway {
        Some(gateway) => gateway,
        None => return None,
    };
    let port: i32 = match creds.port {
        Some(port) => port,
        None => return None,
    };
    let gateway: [u8; 4] = match text::parse_address(gateway.as_str()) {
        Some(gateway) => gateway,
        None => return None,
    };
    if port < 0 || port > 65535 {
        return None;
    }
    Some(
        (
            HotspotCreds {
                ssid: text_or_empty(&creds.ssid),
                password: text_or_empty(&creds.password),
                frequency: match creds.frequency {
                    Some(frequency) => frequency,
                    None => -1,
                },
                gateway,
                bind_ip: gateway,
            },
            port as u16,
        ),
    )
}

impl<A: SoftAp> WifiHotspotBwuHandler<A> {
    /// The hotspots that are set up, for each service.
    pub closed spec fn hotspots(&self) -> Hotspots {
        hotspots_view(self.listeners@)
    }

    /// What sets up and joins hotspots.
    pub closed spec fn spec_softap(&self) -> &A {
        &self.softap
    }

    pub fn new(softap: A) -> (r: WifiHotspotBwuHandler<A>)
        ensures
            *r.spec_softap() == softap,
            r.hotspots() == Hotspots::empty(),
    {
        let r = WifiHotspotBwuHandler { softap, listeners: StrMap::new() };
        assert(r.hotspots() =~= Hotspots::empty());
        r
    }

    pub fn softap(&self) -> (r: &A)
        ensures
            *r == *self.spec_softap(),
    {
        &self.softap
    }

    /// Offers the hotspot of a service, or sets one up.
    pub fn handle_initialize_upgraded_medium_for_endpoint(
        &mut self,
        upgrade_service_id: &str,
    ) -> (r: HotspotStep)
        ensures
            final(self).hotspots() == old(self).hotspots(),
            if old(self).hotspots().contains_key(upgrade_service_id@) {
                let (creds, port) = old(self).hotspots()[upgrade_service_id@];
                &&& r matches HotspotStep::Offer(frame) && frame@ == frames::path_available_bytes(
                    hotspot_path(creds, port),
                )
                &&& final(self).spec_softap() == old(self).spec_softap()
            } else {
                final(self).spec_softap().calls() == old(self).spec_softap().calls().push(
                    SoftApCall::Start(
                        upgrade_service_id@,
                        match r {
                            HotspotStep::Listen { creds } => Some(creds@),
                            HotspotStep::Offer(_) => None,
                        },
                    ),
                ) && (r matches HotspotStep::Offer(frame) ==> frame@.len() == 0)
            },
    {
        if let Some(listener) = self.listeners.get(upgrade_service_id) {
            return HotspotStep::Offer(offer(&listener.creds, listener.port));
        }
        match self.softap.start(upgrade_service_id) {
            Some(creds) => HotspotStep::Listen { creds },
            None => HotspotStep::Offer(Vec::new()),
        }
    }

    /// A listener was bound to `port`, or could not be: then the hotspot is torn down
    /// again. Gives the frame that offers it; an empty one if there is none.
    pub fn listening(
        &mut self,
        upgrade_service_id: &str,
        creds: HotspotCreds,
        port: Option<u16>,
    ) -> (r: Vec<u8>)
        ensures
            match port {
                Some(port) => {
                    &&& final(self).hotspots() == old(self).hotspots().insert(
                        upgrade_service_id@,
                        (creds@, port),
                    )
                    &&& final(self).spec_softap() == old(self).spec_softap()
                    &&& r@ == frames::path_available_bytes(hotspot_path(creds@, port))
                },
                None => {
                    &&& final(self).hotspots() == old(self).hotspots()
                    &&& final(self).spec_softap().calls() == old(self).spec_softap().calls().push(
                        SoftApCall::Stop(upgrade_service_id@),
                    )
                    &&& r@.len() == 0
                },
            },
    {
        match port {
            Some(port) => {
                let r = offer(&creds, port);
                let ghost c = creds@;
                let _ = self.listeners.insert(upgrade_service_id, HotspotListener { port, creds });
                assert(self.hotspots() =~= old(self).hotspots().insert(
                    upgrade_service_id@,
                    (c, port),
                ));
                r
            },
            None => {
                self.softap.stop(upgrade_service_id);
                Vec::new()
            },
        }
    }

    /// Whether a service has a listener, which has to be stopped before its hotspot is
    /// torn down.
    pub fn is_listening(&self, upgrade_service_id: &str) -> (r: bool)
        ensures
            r == self.hotspots().contains_key(upgrade_service_id@),
    {
        self.listeners.contains_key(upgrade_service_id)
    }

    /// Tears down the hotspot of a service. Tells whether there was one.
    pub fn handle_revert_initiator_state_for_service(&mut self, upgrade_service_id: &str) -> (r:
        bool)
        ensures
            r == old(self).hotspots().contains_key(upgrade_service_id@),
            final(self).hotspots() == old(self).hotspots().remove(upgrade_service_id@),
            if r {
                final(self).spec_softap().calls() == old(self).spec_softap().calls().push(
                    SoftApCall::Stop(upgrade_service_id@),
                )
            } else {
                final(self).spec_softap() == old(self).spec_softap()
            },
    {
        let r = self.listeners.remove(upgrade_service_id).is_some();
        assert(self.hotspots() =~= old(self).hotspots().remove(upgrade_service_id@));
        if r {
            self.softap.stop(upgrade_service_id);
        }
        r
    }

    /// Joins the hotspot of an offer, and gives what to dial. Without a gateway and a port
    /// nothing is joined.
    pub fn create_upgraded_endpoint_channel(
        &mut self,
        upgrade_path_info: &bwu::UpgradePathInfo,
    ) -> (r: Option<DialTarget>)
        ensures
            final(self).hotspots() == old(self).hotspots(),
            match hotspot_offered(upgrade_path_info@) {
                None => r is None && final(self).spec_softap() == old(self).spec_softap(),
                Some((creds, port)) => {
                    &&& final(self).spec_softap().calls() == old(self).spec_softap().calls().push(
                        SoftApCall::Join(creds, r is Some),
                    )
                    &&& r matches Some(target) ==> target@ == (DialTargetView {
                        ip: creds.gateway,
                        port,
                    })
                },
            },
    {
        let (creds, port) = match offered(upgrade_path_info) {
            Some(offered) => offered,
            None => return None,
        };
        match self.softap.connect_as_sta(&creds) {
            Some(_) => Some(DialTarget { ip: creds.gateway, port }),
            None => None,
        }
    }

    pub fn get_upgrade_medium(&self) -> (r: Medium)
        ensures
            r is WifiHotspot,
    {
        Medium::WifiHotspot
    }

    /// An endpoint has disconnected: the hotspot that was joined is left.
    pub fn on_endpoint_disconnect(&mut self)
        ensures
            final(self).hotspots() == old(self).hotspots(),
            final(self).spec_softap().calls() == old(self).spec_softap().calls().push(
                SoftApCall::Leave,
            ),
    {
        self.softap.disconnect_sta();
    }
}

/// The peer joins and dials what was offered.
pub proof fn lemma_offer_joined(creds: HotspotCredsView, port: u16)
    requires
        creds.gateway.len() == 4,
        validator::length_within(
            Some(creds.password),
            validator::WIFI_PASSWORD_SSID_MIN_LENGTH as int,
            validator::WIFI_PASSWORD_SSID_MAX_LENGTH as int,
        ),
        frames::path_available_bytes(hotspot_path(creds, port)).len() <= u64::MAX,
    ensures
        model::carried(Ok(frames::path_available_bytes(hotspot_path(creds, port)))) matches Some(
            step,
        ) && step.upgrade_path_info matches Some(info) && model::event_of(step)
            is UpgradePathAvailable && model::info_medium(info) is WifiHotspot && hotspot_offered(
            info,
        ) == Some((HotspotCredsView { bind_ip: creds.gateway, ..creds }, port)),
{
    text::lemma_address_round_trip(creds.gateway);
    frames::lemma_path_available_parsed(hotspot_path(creds, port));
}

/// What is told of a hotspot is read: its name, its password, its frequency, its gateway as
/// text, and the port. Introductions are to be confirmed, and encryption is kept.
pub proof fn lemma_hotspot_offer_read(creds: HotspotCredsView, port: u16)
    requires
        creds.gateway.len() == 4,
        frame_laws::is_long(Some(creds.password), 8, 63),
        frames::path_available_bytes(hotspot_path(creds, port)).len() <= u64::MAX,
    ensures
        ({
            &&& frame_laws::path_read(
                frames::path_available_bytes(hotspot_path(creds, port)),
            ) matches Some(info)
            &&& info.medium == Some(3i32)
            &&& info.supports_client_introduction_ack == Some(true)
            &&& info.supports_disabling_encryption == Some(false)
            &&& info.wifi_hotspot_credentials matches Some(told)
            &&& told.ssid == Some(creds.ssid)
            &&& told.password == Some(creds.password)
            &&& told.frequency == Some(creds.frequency)
            &&& told.port == Some(port as i32)
            &&& told.gateway matches Some(gateway)
            &&& text::address_of(gateway) == Some(creds.gateway)
            &&& told.address_candidates.len() == 0
        }),
{
    text::lemma_address_round_trip(creds.gateway);
    frame_laws::lemma_offer_read(hotspot_path(creds, port));
}

/// A hotspot is joined with what the offer tells of it, and its gateway is dialled.
/// Without a gateway that is an address, or a port in range, it is not.
pub proof fn lemma_joined_as_told(
    info: bwu::UpgradePathInfoView,
    told: upi::WifiHotspotCredentialsView,
)
    requires
        info.wifi_hotspot_credentials == Some(told),
    ensures
        hotspot_offered(info) matches Some((creds, port)) ==> {
            &&& told.gateway is Some && text::address_of(told.gateway->0) == Some(creds.gateway)
            &&& creds.bind_ip == creds.gateway
            &&& told.port == Some(port as i32)
            &&& told.ssid is Some ==> creds.ssid == told.ssid->0
            &&& told.ssid is None ==> creds.ssid.len() == 0
            &&& told.password is Some ==> creds.password == told.password->0
            &&& told.password is None ==> creds.password.len() == 0
            &&& told.frequency is Some ==> creds.frequency == told.frequency->0
            &&& told.frequency is None ==> creds.frequency == -1
        },
        hotspot_offered(info) is None ==> told.gateway is None || text::address_of(
            told.gateway->0,
        ) is None || told.port is None || !(0 <= told.port->0 <= 65535),
        hotspot_offered(bwu::UpgradePathInfoView { wifi_hotspot_credentials: None, ..info }) is None,
{
}

// ---------------------------------------------------------------------------
// FakeSoftAp
// ---------------------------------------------------------------------------

/// A [`SoftAp`] without a radio: its hotspot is the loopback address.
pub struct FakeSoftAp {
    connected: bool,
    calls: Ghost<Seq<SoftApCall>>,
}

/// The hotspot of a [`FakeSoftAp`].
pub open spec fn fake_creds() -> HotspotCredsView {
    HotspotCredsView {
        ssid: "DIRECT-beamish-test"@,
        password: "testpassword"@,
        frequency: 2437,
        gateway: seq![127u8, 0, 0, 1],
        bind_ip: seq![127u8, 0, 0, 1],
    }
}

impl FakeSoftAp {
    pub fn new() -> (r: FakeSoftAp)
        ensures
            !r.joined(),
            r.calls() == Seq::<SoftApCall>::empty(),
    {
        FakeSoftAp { connected: false, calls: Ghost(Seq::empty()) }
    }
}

impl Default for FakeSoftAp {
    fn default() -> (r: FakeSoftAp)
        ensures
            !r.joined(),
            r.calls() == Seq::<SoftApCall>::empty(),
    {
        Self::new()
    }
}

impl SoftAp for FakeSoftAp {
    closed spec fn calls(&self) -> Seq<SoftApCall> {
        self.calls@
    }

    closed spec fn joined(&self) -> bool {
        self.connected
    }

    fn start(&mut self, service_id: &str) -> (r: Option<HotspotCreds>)
        ensures
            wire::opt_view(r) == Some(fake_creds()),
            final(self).joined() == old(self).joined(),
    {
        let loopback: [u8; 4] = [127, 0, 0, 1];
        assert(loopback@ =~= seq![127u8, 0, 0, 1]);
        let creds = HotspotCreds {
            ssid: "DIRECT-beamish-test".to_owned(),
            password: "testpassword".to_owned(),
            frequency: 2437,
            gateway: loopback,
            bind_ip: loopback,
        };
        self.calls = Ghost(self.calls@.push(SoftApCall::Start(service_id@, Some(creds@))));
        Some(creds)
    }

    fn connect_as_sta(&mut self, creds: &HotspotCreds) -> (r: Option<()>)
        ensures
            r is Some,
            final(self).joined(),
    {
        self.connected = true;
        self.calls = Ghost(self.calls@.push(SoftApCall::Join(creds@, true)));
        Some(())
    }

    fn stop(&mut self, service_id: &str)
        ensures
            final(self).joined() == old(self).joined(),
    {
        self.calls = Ghost(self.calls@.push(SoftApCall::Stop(service_id@)));
    }

    fn disconnect_sta(&mut self)
        ensures
            !final(self).joined(),
    {
        self.connected = false;
        self.calls = Ghost(self.calls@.push(SoftApCall::Leave));
    }

    fn is_connected_to_hotspot(&self) -> (r: bool) {
        self.connected
    }
}

} // verus!

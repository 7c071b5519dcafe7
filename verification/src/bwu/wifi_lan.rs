//! Upgrades to a socket on the local network.
//!
//! The side that offers the upgrade listens on a port and tells the peer its address and
//! the port. The peer dials it. What is decided stands here; a [`WifiLanBwuHandler`] says
//! what to listen on and what to dial, and is told what came of it.

use vstd::prelude::*;

use crate::bwu::model;
use crate::bwu::str_map::StrMap;
use crate::frame_laws;
use crate::frames;
use crate::frames::{for_bwu_wifi_lan_path_available, ServiceAddress};
use crate::mediums::Medium;
use crate::proto as pb;
use crate::proto::bandwidth_upgrade_negotiation_frame as bwu;
use crate::wire;

verus! {

/// What channels over the local network are called.
pub const CHANNEL_NAME: &'static str = "wifi-lan";

/// An address that can be dialled.
#[derive(Clone, Copy, Debug, PartialEq, Eq)]
pub struct DialTarget {
    pub ip: [u8; 4],
    pub port: u16,
}

/// What [`DialTarget`] stands for.
#[verifier::ext_equal]
pub struct DialTargetView {
    pub ip: Seq<u8>,
    pub port: u16,
}

impl View for DialTarget {
    type V = DialTargetView;

    open spec fn view(&self) -> DialTargetView {
        DialTargetView { ip: self.ip@, port: self.port }
    }
}

/// What has to be done to offer the medium.
pub enum ListenStep {
    /// There is a listener: this frame offers it.
    Offer(Vec<u8>),
    /// A listener has to be bound to this address, on any port. What came of it is told
    /// to [`WifiLanBwuHandler::listening`].
    Listen { bind_ip: [u8; 4] },
}

/// What decides over upgrades to the local network.
pub struct WifiLanBwuHandler {
    bind_ip: [u8; 4],
    advertise_ip: [u8; 4],
    listeners: StrMap<u16>,
}

/// What [`WifiLanBwuHandler`] stands for.
#[verifier::ext_equal]
pub struct WifiLanView {
    /// What listeners are bound to.
    pub bind_ip: Seq<u8>,
    /// What peers are told to dial.
    pub advertise_ip: Seq<u8>,
    /// The port of the listener of each service.
    pub ports: Map<Seq<char>, u16>,
}

impl View for WifiLanBwuHandler {
    type V = WifiLanView;

    closed spec fn view(&self) -> WifiLanView {
        WifiLanView {
            bind_ip: self.bind_ip@,
            advertise_ip: self.advertise_ip@,
            ports: self.listeners@,
        }
    }
}

/// The offer of a socket.
pub open spec fn socket_path(ip: Seq<u8>, port: u16) -> bwu::UpgradePathInfoView {
    frames::wifi_lan_path(
        seq![pb::ServiceAddressView { ip_address: Some(ip), port: Some(port as i32) }],
    )
}

/// What an offer asks to dial: an IPv4 address and a port.
pub open spec fn dial_target(info: bwu::UpgradePathInfoView) -> Option<DialTargetView> {
    match info.wifi_lan_socket {
        Some(socket) => match (socket.ip_address, socket.wifi_port) {
            (Some(ip), Some(port)) => if ip.len() == 4 && 0 <= port <= u16::MAX {
                Some(DialTargetView { ip, port: port as u16 })
            } else {
                None
            },
            _ => None,
        },
        None => None,
    }
}

impl WifiLanBwuHandler {
    /// Listens on the loopback address, for peers on the same host.
    pub fn new() -> (r: WifiLanBwuHandler)
        ensures
            r@ == (WifiLanView {
                bind_ip: seq![127u8, 0, 0, 1],
                advertise_ip: seq![127u8, 0, 0, 1],
                ports: Map::empty(),
            }),
    {
        let loopback: [u8; 4] = [127, 0, 0, 1];
        assert(loopback@ =~= seq![127u8, 0, 0, 1]);
        Self::with_endpoint(loopback, loopback)
    }

    /// Listens on `bind_ip`, and tells peers to dial `advertise_ip`.
    pub fn with_endpoint(bind_ip: [u8; 4], advertise_ip: [u8; 4]) -> (r: WifiLanBwuHandler)
        ensures
            r@ == (WifiLanView {
                bind_ip: bind_ip@,
                advertise_ip: advertise_ip@,
                ports: Map::empty(),
            }),
    {
        WifiLanBwuHandler { bind_ip, advertise_ip, listeners: StrMap::new() }
    }

    fn offer(&self, port: u16) -> (r: Vec<u8>)
        ensures
            r@ == frames::path_available_bytes(socket_path(self@.advertise_ip, port)),
    {
        let address = ServiceAddress {
            address: vstd::slice::slice_to_vec(self.advertise_ip.as_slice()),
            port: port as i32,
        };
        let ghost a = address@;
        let addresses: [ServiceAddress; 1] = [address];
        assert(wire::seq_view(addresses@) =~= seq![
            pb::ServiceAddressView {
                ip_address: Some(self@.advertise_ip),
                port: Some(port as i32),
            },
        ]) by {
            assert(addresses@[0]@ == a);
        }
        for_bwu_wifi_lan_path_available(&addresses)
    }

    /// Offers the listener of a service, or asks for one.
    pub fn handle_initialize_upgraded_medium_for_endpoint(&self, upgrade_service_id: &str) -> (r:
        ListenStep)
        ensures
            match r {
                ListenStep::Offer(frame) => self@.ports.contains_key(upgrade_service_id@)
                    && frame@ == frames::path_available_bytes(
                    socket_path(self@.advertise_ip, self@.ports[upgrade_service_id@]),
                ),
                ListenStep::Listen { bind_ip } => !self@.ports.contains_key(upgrade_service_id@)
                    && bind_ip@ == self@.bind_ip,
            },
    {
        match self.listeners.get(upgrade_service_id) {
            Some(port) => ListenStep::Offer(self.offer(*port)),
            None => ListenStep::Listen { bind_ip: self.bind_ip },
        }
    }

    /// A listener was bound to `port`, or could not be. Gives the frame that offers it;
    /// an empty one if there is none.
    pub fn listening(&mut self, upgrade_service_id: &str, port: Option<u16>) -> (r: Vec<u8>)
        ensures
            match port {
                Some(port) => {
                    &&& final(self)@ == (WifiLanView {
                        ports: old(self)@.ports.insert(upgrade_service_id@, port),
                        ..old(self)@
                    })
                    &&& r@ == frames::path_available_bytes(
                        socket_path(old(self)@.advertise_ip, port),
                    )
                },
                None => final(self)@ == old(self)@ && r@.len() == 0,
            },
    {
        match port {
            Some(port) => {
                let _ = self.listeners.insert(upgrade_service_id, port);
                self.offer(port)
            },
            None => Vec::new(),
        }
    }

    /// Forgets the listener of a service. Tells whether there was one, which has to be
    /// stopped.
    pub fn handle_revert_initiator_state_for_service(&mut self, upgrade_service_id: &str) -> (r:
        bool)
        ensures
            r == old(self)@.ports.contains_key(upgrade_service_id@),
            final(self)@ == (WifiLanView {
                ports: old(self)@.ports.remove(upgrade_service_id@),
                ..old(self)@
            }),
    {
        self.listeners.remove(upgrade_service_id).is_some()
    }

    /// What an offer asks to dial.
    pub fn create_upgraded_endpoint_channel(
        &self,
        upgrade_path_info: &bwu::UpgradePathInfo,
    ) -> (r: Option<DialTarget>)
        ensures
            wire::opt_view(r) == dial_target(upgrade_path_info@),
    {
        let socket = match &upgrade_path_info.wifi_lan_socket {
            Some(socket) => socket,
            None => return None,
        };
        let ip = match &socket.ip_address {
            Some(ip) => ip,
            None => return None,
        };
        let port: i32 = match socket.wifi_port {
            Some(port) => port,
            None => return None,
        };
        if ip.len() != 4 || port < 0 || port > 65535 {
            return None;
        }
        let target = DialTarget { ip: [ip[0], ip[1], ip[2], ip[3]], port: port as u16 };
        assert(target.ip@ =~= ip@);
        Some(target)
    }

    pub fn get_upgrade_medium(&self) -> (r: Medium)
        ensures
            r is WifiLan,
    {
        Medium::WifiLan
    }
}

impl Default for WifiLanBwuHandler {
    fn default() -> (r: WifiLanBwuHandler)
        ensures
            r@ == (WifiLanView {
                bind_ip: seq![127u8, 0, 0, 1],
                advertise_ip: seq![127u8, 0, 0, 1],
                ports: Map::empty(),
            }),
    {
        Self::new()
    }
}

/// The peer dials what was offered.
pub proof fn lemma_offer_dialled(ip: Seq<u8>, port: u16)
    requires
        ip.len() == 4,
        frames::path_available_bytes(socket_path(ip, port)).len() <= u64::MAX,
    ensures
        model::carried(Ok(frames::path_available_bytes(socket_path(ip, port)))) matches Some(step)
            && step.upgrade_path_info matches Some(info) && model::event_of(step)
            is UpgradePathAvailable && model::info_medium(info) is WifiLan && dial_target(info)
            == Some(DialTargetView { ip, port }),
{
    frames::lemma_path_available_parsed(socket_path(ip, port));
}

/// Of any list of addresses whose last one is an IPv4 address with a port from 0 to 65535,
/// the peer that reads the offer dials the last one, whatever the others are. If the last
/// one is of another kind, nothing can be dialled.
pub proof fn lemma_last_address_dialled(addresses: Seq<pb::ServiceAddressView>)
    requires
        addresses.len() > 0,
        forall|i: int|
            0 <= i < addresses.len() ==> (#[trigger] addresses[i]).ip_address is Some
                && addresses[i].port is Some,
        frames::path_available_bytes(frames::wifi_lan_path(addresses)).len() <= u64::MAX,
    ensures
        ({
            let last = addresses[addresses.len() - 1];
            let ip = last.ip_address->0;
            let port = last.port->0;
            &&& frame_laws::path_read(
                frames::path_available_bytes(frames::wifi_lan_path(addresses)),
            ) matches Some(info)
            &&& if ip.len() == 4 && 0 <= port <= 65535 {
                dial_target(info) == Some(DialTargetView { ip, port: port as u16 })
            } else {
                dial_target(info) is None
            }
        }),
{
    frame_laws::lemma_socket_offer_read(addresses);
}

/// What is dialled is the address that stands alone in an offer, with its port, and not one
/// of the candidates. Without it, or where it is not an IPv4 address or the port is out of
/// range, nothing is dialled.
pub proof fn lemma_dialled(info: bwu::UpgradePathInfoView)
    ensures
        dial_target(info) matches Some(target) ==> {
            &&& info.wifi_lan_socket matches Some(socket)
            &&& socket.ip_address == Some(target.ip)
            &&& socket.wifi_port matches Some(port)
            &&& port == target.port
            &&& target.ip.len() == 4
        },
        dial_target(info) is None ==> {
            ||| info.wifi_lan_socket is None
            ||| info.wifi_lan_socket->0.ip_address is None
            ||| info.wifi_lan_socket->0.wifi_port is None
            ||| info.wifi_lan_socket->0.ip_address->0.len() != 4
            ||| !(0 <= info.wifi_lan_socket->0.wifi_port->0 <= 65535)
        },
{
}

/// What is offered for a listener is dialled, and nothing else goes along.
pub proof fn lemma_listener_dialled(ip: Seq<u8>, port: u16)
    requires
        ip.len() == 4,
        frames::path_available_bytes(socket_path(ip, port)).len() <= u64::MAX,
    ensures
        ({
            &&& frame_laws::path_read(
                frames::path_available_bytes(socket_path(ip, port)),
            ) matches Some(info)
            &&& info.medium == Some(5i32)
            &&& dial_target(info) == Some(DialTargetView { ip, port })
            &&& info.wifi_lan_socket->0.address_candidates.len() == 1
            &&& info.wifi_lan_socket->0.address_candidates[0].ip_address == Some(ip)
            &&& info.wifi_lan_socket->0.address_candidates[0].port == Some(port as i32)
        }),
{
    let addresses = seq![
        pb::ServiceAddressView { ip_address: Some(ip), port: Some(port as i32) },
    ];
    frame_laws::lemma_socket_offer_read(addresses);
}

} // verus!

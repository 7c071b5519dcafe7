use nearby_rs::bwu::wifi_hotspot::{HotspotStep, CHANNEL_NAME};
use nearby_rs::bwu::{
    Cipher, DialTarget, FakeSoftAp, HotspotCreds, Pipe, SoftAp, StreamChannel,
    WifiHotspotBwuHandler,
};
use nearby_rs::frames::{from_bytes, Exception};
use nearby_rs::mediums::Medium;
use nearby_rs::proto::bandwidth_upgrade_negotiation_frame::upgrade_path_info::WifiHotspotCredentials;
use nearby_rs::proto::bandwidth_upgrade_negotiation_frame::UpgradePathInfo;

struct NoCipher;

impl Cipher for NoCipher {
    fn encode(&mut self, _plaintext: &[u8]) -> Option<Vec<u8>> {
        None
    }

    fn decode(&mut self, _ciphertext: &[u8]) -> Option<Vec<u8>> {
        None
    }
}

/// Counts the hotspots that it tears down, and cannot set one up.
#[derive(Default)]
struct BrokenSoftAp {
    stopped: Vec<String>,
}

impl SoftAp for BrokenSoftAp {
    fn start(&mut self, _service_id: &str) -> Option<HotspotCreds> {
        None
    }

    fn connect_as_sta(&mut self, _creds: &HotspotCreds) -> Option<()> {
        None
    }

    fn stop(&mut self, service_id: &str) {
        self.stopped.push(service_id.to_string());
    }

    fn disconnect_sta(&mut self) {}

    fn is_connected_to_hotspot(&self) -> bool {
        false
    }
}

fn upgrade_path_info(path_available_bytes: &[u8]) -> UpgradePathInfo {
    from_bytes(path_available_bytes)
        .expect("path-available frame should parse")
        .v1
        .and_then(|v1| v1.bandwidth_upgrade_negotiation)
        .and_then(|bwu| bwu.upgrade_path_info)
        .expect("a WIFI_HOTSPOT UPGRADE_PATH_AVAILABLE carries upgrade_path_info")
}

/// Sets up the hotspot of a service with a listener on `port`, and gives the offer.
fn set_up(handler: &mut WifiHotspotBwuHandler<FakeSoftAp>, service_id: &str, port: u16) -> Vec<u8> {
    match handler.handle_initialize_upgraded_medium_for_endpoint(service_id) {
        HotspotStep::Listen { creds } => handler.listening(service_id, creds, Some(port)),
        HotspotStep::Offer(frame) => frame,
    }
}

#[test]
fn can_create_bwu_handler() {
    let mut handler = WifiHotspotBwuHandler::new(FakeSoftAp::new());
    let frame = set_up(&mut handler, "com.google.location.nearby.apps.test_UPGRADE", 40000);
    assert!(!frame.is_empty(), "SoftAP + listener should produce a frame");
    assert!(handler
        .handle_revert_initiator_state_for_service("com.google.location.nearby.apps.test_UPGRADE"));
}

#[test]
fn softap_init_then_sta_creates_endpoint_channel() {
    let mut initiator = WifiHotspotBwuHandler::new(FakeSoftAp::new());
    let path_available = set_up(&mut initiator, "ServiceA_UPGRADE", 40000);
    assert!(!path_available.is_empty(), "SoftAP should start + advertise");

    // The offer says how to join the hotspot.
    let info = upgrade_path_info(&path_available);
    let creds = info
        .wifi_hotspot_credentials
        .as_ref()
        .expect("WIFI_HOTSPOT offer carries hotspot credentials");
    assert_eq!(creds.gateway.as_deref().unwrap(), "127.0.0.1");
    assert_eq!(creds.frequency.unwrap(), 2437);
    assert!(!creds.ssid.as_deref().unwrap().is_empty());
    assert!(creds.password.as_deref().unwrap().len() >= 8);

    // An offer without credentials gives nothing to join.
    let mut responder = WifiHotspotBwuHandler::new(FakeSoftAp::new());
    assert!(
        responder.create_upgraded_endpoint_channel(&UpgradePathInfo::default()).is_none(),
        "an offer without credentials must not produce a channel"
    );
    assert!(
        !responder.softap().is_connected_to_hotspot(),
        "a rejected offer must not join the hotspot"
    );

    // The real offer: the hotspot is joined and its gateway dialled.
    let target = responder
        .create_upgraded_endpoint_channel(&info)
        .expect("STA should join + connect to the advertised hotspot");
    assert_eq!(target, DialTarget { ip: [127, 0, 0, 1], port: 40000 });
    assert_eq!(responder.get_upgrade_medium(), Medium::WifiHotspot);
    assert!(
        responder.softap().is_connected_to_hotspot(),
        "creating the channel joins the hotspot as a STA"
    );

    // Frames flow over the channel that comes of it.
    let mut channel: StreamChannel<Pipe, NoCipher> =
        StreamChannel::new("ServiceA", CHANNEL_NAME, responder.get_upgrade_medium(), Pipe::new());
    assert_eq!(channel.medium(), Medium::WifiHotspot);
    assert_eq!(channel.write(b"ping"), Exception::Success);
    assert_eq!(channel.read().unwrap(), b"ping");
    assert_eq!(channel.write(b"pong"), Exception::Success);
    assert_eq!(channel.read().unwrap(), b"pong");

    // The side that joined leaves the hotspot.
    responder.on_endpoint_disconnect();
    assert!(
        !responder.softap().is_connected_to_hotspot(),
        "disconnect should leave the hotspot"
    );

    // The side that set it up tears it down.
    assert!(initiator.is_listening("ServiceA_UPGRADE"));
    assert!(initiator.handle_revert_initiator_state_for_service("ServiceA_UPGRADE"));
    assert!(!initiator.is_listening("ServiceA_UPGRADE"));
}

#[test]
fn wifi_hotspot_create_channel_without_credentials_returns_none() {
    let mut handler = WifiHotspotBwuHandler::new(FakeSoftAp::new());
    let info = UpgradePathInfo::default();
    assert!(handler.create_upgraded_endpoint_channel(&info).is_none());
}

#[test]
fn hotspot_of_a_service_is_used_again() {
    let mut handler = WifiHotspotBwuHandler::new(FakeSoftAp::default());
    let first = set_up(&mut handler, "S_UPGRADE", 7);
    match handler.handle_initialize_upgraded_medium_for_endpoint("S_UPGRADE") {
        HotspotStep::Offer(frame) => assert_eq!(frame, first),
        HotspotStep::Listen { .. } => panic!("the hotspot is set up"),
    }
}

#[test]
fn hotspot_that_cannot_be_set_up_offers_nothing() {
    let mut handler = WifiHotspotBwuHandler::new(BrokenSoftAp::default());
    match handler.handle_initialize_upgraded_medium_for_endpoint("S_UPGRADE") {
        HotspotStep::Offer(frame) => assert!(frame.is_empty()),
        HotspotStep::Listen { .. } => panic!("there is no hotspot"),
    }
    assert!(!handler.handle_revert_initiator_state_for_service("S_UPGRADE"));
    assert!(handler.softap().stopped.is_empty());
}

#[test]
fn hotspot_without_a_listener_is_torn_down_again() {
    let mut handler = WifiHotspotBwuHandler::new(BrokenSoftAp::default());
    let creds = HotspotCreds {
        ssid: "s".to_string(),
        password: "p".to_string(),
        frequency: 1,
        gateway: [1, 2, 3, 4],
        bind_ip: [1, 2, 3, 4],
    };
    assert!(handler.listening("S_UPGRADE", creds, None).is_empty());
    assert_eq!(handler.softap().stopped, vec!["S_UPGRADE".to_string()]);
}

#[test]
fn hotspot_that_cannot_be_joined_gives_no_target() {
    let mut initiator = WifiHotspotBwuHandler::new(FakeSoftAp::new());
    let info = upgrade_path_info(&set_up(&mut initiator, "S_UPGRADE", 7));
    let mut responder = WifiHotspotBwuHandler::new(BrokenSoftAp::default());
    assert_eq!(responder.create_upgraded_endpoint_channel(&info), None);
}

#[test]
fn credentials_need_a_gateway_and_a_port() {
    let mut handler = WifiHotspotBwuHandler::new(FakeSoftAp::new());
    let offer = |gateway: Option<&str>, port: Option<i32>| UpgradePathInfo {
        wifi_hotspot_credentials: Some(WifiHotspotCredentials {
            gateway: gateway.map(|g| g.to_string()),
            port,
            ..Default::default()
        }),
        ..Default::default()
    };
    for info in [
        offer(None, Some(1)),
        offer(Some("10.0.0.1"), None),
        offer(Some("10.0.0"), Some(1)),
        offer(Some("10.0.0.256"), Some(1)),
        offer(Some("10.0.0.01"), Some(1)),
        offer(Some("10.0.0.1"), Some(-1)),
        offer(Some("10.0.0.1"), Some(65536)),
    ] {
        assert_eq!(handler.create_upgraded_endpoint_channel(&info), None);
        assert!(!handler.softap().is_connected_to_hotspot());
    }
    assert_eq!(
        handler.create_upgraded_endpoint_channel(&offer(Some("10.0.0.1"), Some(0))),
        Some(DialTarget { ip: [10, 0, 0, 1], port: 0 })
    );
}

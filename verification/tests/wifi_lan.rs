use nearby_rs::bwu::wifi_lan::{ListenStep, CHANNEL_NAME};
use nearby_rs::bwu::{Cipher, DialTarget, Pipe, StreamChannel, WifiLanBwuHandler};
use nearby_rs::frames::{from_bytes, Exception};
use nearby_rs::mediums::Medium;
use nearby_rs::proto::bandwidth_upgrade_negotiation_frame::upgrade_path_info::WifiLanSocket;
use nearby_rs::proto::bandwidth_upgrade_negotiation_frame::UpgradePathInfo;

struct NoCipher;

impl Cipher for NoCipher {
    fn encode(&mut self, _plaintext: &[u8]) -> Option<Vec<u8>> {
        None
    }

    fn decode(&mut self, _ciphertext: &[u8]) -> Option<Vec<u8>> {
        None
    }
}

fn upgrade_path_info(path_available_bytes: &[u8]) -> UpgradePathInfo {
    from_bytes(path_available_bytes)
        .expect("path-available frame should parse")
        .v1
        .and_then(|v1| v1.bandwidth_upgrade_negotiation)
        .and_then(|bwu| bwu.upgrade_path_info)
        .expect("a WIFI_LAN UPGRADE_PATH_AVAILABLE carries upgrade_path_info")
}

#[test]
fn wifi_lan_upgrade_channel_round_trips_over_loopback() {
    // The side that offers asks for a listener, and offers it.
    let mut initiator = WifiLanBwuHandler::new();
    match initiator.handle_initialize_upgraded_medium_for_endpoint("ServiceA_UPGRADE") {
        ListenStep::Listen { bind_ip } => assert_eq!(bind_ip, [127, 0, 0, 1]),
        ListenStep::Offer(_) => panic!("there is no listener yet"),
    }
    let path_available = initiator.listening("ServiceA_UPGRADE", Some(40000));
    assert!(!path_available.is_empty(), "listener should bind + advertise");

    // The other side reads the address and dials it.
    let info = upgrade_path_info(&path_available);
    let responder = WifiLanBwuHandler::new();
    let target = responder
        .create_upgraded_endpoint_channel(&info)
        .expect("responder should connect to the advertised socket");
    assert_eq!(target, DialTarget { ip: [127, 0, 0, 1], port: 40000 });

    // Frames flow over the channel that comes of it.
    let mut channel: StreamChannel<Pipe, NoCipher> =
        StreamChannel::new("ServiceA", CHANNEL_NAME, initiator.get_upgrade_medium(), Pipe::new());
    assert_eq!(channel.medium(), Medium::WifiLan);
    assert_eq!(channel.write(b"ping"), Exception::Success);
    assert_eq!(channel.read().unwrap(), b"ping");
    assert_eq!(channel.write(b"pong"), Exception::Success);
    assert_eq!(channel.read().unwrap(), b"pong");

    // Reverting gives the listener up.
    assert!(initiator.handle_revert_initiator_state_for_service("ServiceA_UPGRADE"));
    assert!(!initiator.handle_revert_initiator_state_for_service("ServiceA_UPGRADE"));
}

#[test]
fn with_endpoint_binds_one_ip_but_advertises_another() {
    // Listens on every interface, but has peers dial the loopback address.
    let mut initiator = WifiLanBwuHandler::with_endpoint([0, 0, 0, 0], [127, 0, 0, 1]);
    match initiator.handle_initialize_upgraded_medium_for_endpoint("ServiceB_UPGRADE") {
        ListenStep::Listen { bind_ip } => assert_eq!(bind_ip, [0, 0, 0, 0]),
        ListenStep::Offer(_) => panic!("there is no listener yet"),
    }
    let path_available = initiator.listening("ServiceB_UPGRADE", Some(40001));

    let info = upgrade_path_info(&path_available);
    let socket = info.wifi_lan_socket.as_ref().expect("wifi_lan_socket present");
    assert_eq!(socket.ip_address.clone().unwrap(), vec![127u8, 0, 0, 1]);

    let responder = WifiLanBwuHandler::new();
    let target = responder
        .create_upgraded_endpoint_channel(&info)
        .expect("responder should connect to the advertised socket");
    assert_eq!(target, DialTarget { ip: [127, 0, 0, 1], port: 40001 });

    assert!(initiator.handle_revert_initiator_state_for_service("ServiceB_UPGRADE"));
}

#[test]
fn wifi_lan_create_channel_without_credentials_returns_none() {
    let handler = WifiLanBwuHandler::default();
    let info = UpgradePathInfo::default();
    assert!(handler.create_upgraded_endpoint_channel(&info).is_none());
}

#[test]
fn listener_of_a_service_is_used_again() {
    let mut handler = WifiLanBwuHandler::new();
    let first = handler.listening("S_UPGRADE", Some(5));
    match handler.handle_initialize_upgraded_medium_for_endpoint("S_UPGRADE") {
        ListenStep::Offer(frame) => assert_eq!(frame, first),
        ListenStep::Listen { .. } => panic!("there is a listener"),
    }
}

#[test]
fn listener_that_cannot_be_bound_offers_nothing() {
    let mut handler = WifiLanBwuHandler::new();
    assert!(handler.listening("S_UPGRADE", None).is_empty());
    assert!(!handler.handle_revert_initiator_state_for_service("S_UPGRADE"));
}

#[test]
fn addresses_that_cannot_be_dialled_are_not() {
    let handler = WifiLanBwuHandler::new();
    let socket = |ip: Option<Vec<u8>>, port: Option<i32>| UpgradePathInfo {
        wifi_lan_socket: Some(WifiLanSocket {
            ip_address: ip,
            wifi_port: port,
            ..Default::default()
        }),
        ..Default::default()
    };
    let v4 = || Some(vec![1, 2, 3, 4]);
    for info in [
        socket(None, Some(1)),
        socket(v4(), None),
        socket(Some(vec![1, 2, 3]), Some(1)),
        socket(Some(vec![0; 16]), Some(1)),
        socket(v4(), Some(-1)),
        socket(v4(), Some(65536)),
    ] {
        assert_eq!(handler.create_upgraded_endpoint_channel(&info), None);
    }
    assert_eq!(
        handler.create_upgraded_endpoint_channel(&socket(v4(), Some(65535))),
        Some(DialTarget { ip: [1, 2, 3, 4], port: 65535 })
    );
}

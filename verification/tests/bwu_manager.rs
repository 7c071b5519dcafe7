use std::cell::RefCell;
use std::rc::Rc;

use nearby_rs::bwu::channel::{DisconnectionReason, SafeDisconnectionResult};
use nearby_rs::bwu::testing::{
    notify_bwu_manager_of_incoming_connection, FakeBwuHandler, FakeBwuHandlerHandle,
    FakeEndpointChannel,
};
use nearby_rs::bwu::{
    BaseBwuHandler, BwuConfig, BwuManager, ClientProxy, EndpointChannel, EndpointChannelManager,
    HandlerMap, IncomingSocketConnection, MediumBwuHandler,
};
use nearby_rs::frames::{
    for_bwu_failure, for_bwu_introduction, for_bwu_introduction_ack, for_bwu_last_write,
    for_bwu_safe_to_close, for_bwu_webrtc_path_available, for_bwu_wifi_direct_path_available,
    for_bwu_wifi_hotspot_path_available, for_bwu_wifi_lan_path_available, for_keep_alive, from_bytes, Exception, ServiceAddress,
};
use nearby_rs::mediums::Medium;
use nearby_rs::proto as pb;
use nearby_rs::proto::bandwidth_upgrade_negotiation_frame as bwu_pb;
use nearby_rs::proto::bandwidth_upgrade_negotiation_frame::upgrade_path_info as upi;

const SERVICE_A: &str = "ServiceA";
const SERVICE_A_UPGRADE: &str = "ServiceA_UPGRADE";
const SERVICE_B: &str = "ServiceB";
const SERVICE_B_UPGRADE: &str = "ServiceB_UPGRADE";
const ENDPOINT_1: &str = "Endpoint1";
const ENDPOINT_2: &str = "Endpoint2";
const ENDPOINT_3: &str = "Endpoint3";
const ENDPOINT_4: &str = "Endpoint4";
const ENDPOINT_5: &str = "Endpoint5";

type Handler = BaseBwuHandler<FakeBwuHandler>;

struct Fixture {
    client: ClientProxy,
    bwu: BwuManager<FakeEndpointChannel, Handler>,
}

fn make_handler(medium: Medium) -> Handler {
    BaseBwuHandler::new(FakeBwuHandler::new(medium, FakeBwuHandler::records()))
}

fn fixture(support_multiple_bwu_mediums: bool) -> Fixture {
    let mut handlers = HandlerMap::new();
    for medium in [Medium::WebRtc, Medium::WifiLan, Medium::WifiDirect, Medium::WifiHotspot] {
        handlers.insert(medium, make_handler(medium));
    }
    let mut bwu = BwuManager::new(
        EndpointChannelManager::new(),
        handlers,
        BwuConfig { support_multiple_bwu_mediums, ..Default::default() },
    );
    bwu.make_single_threaded_for_testing();
    Fixture { client: ClientProxy::new(0, "LocalEndpoint"), bwu }
}

impl Fixture {
    /// Sets up an accepted endpoint channel that is not upgraded yet.
    fn create_initial_endpoint(&mut self, service_id: &str, endpoint_id: &str, medium: Medium) {
        self.create_endpoint(endpoint_id, FakeEndpointChannel::new(medium, service_id));
    }

    fn create_endpoint(&mut self, endpoint_id: &str, channel: FakeEndpointChannel) {
        self.client.on_connection_initiated(endpoint_id, false, false);
        self.client.on_connection_accepted(endpoint_id);
        self.bwu.register_channel_for_endpoint(&self.client, endpoint_id, channel);
    }

    fn records(&self, medium: Medium) -> &FakeBwuHandlerHandle {
        self.bwu.handler(medium).unwrap().inner().recorded()
    }

    fn channel(&self, endpoint_id: &str) -> &FakeEndpointChannel {
        self.bwu.channel_manager().get_channel_for_endpoint(endpoint_id).unwrap()
    }

    fn current_medium(&self, endpoint_id: &str) -> Medium {
        self.channel(endpoint_id).medium()
    }

    fn feed(&mut self, frame_bytes: Vec<u8>, endpoint_id: &str, medium: Medium) {
        let frame = from_bytes(&frame_bytes).expect("frame should parse");
        self.bwu.on_incoming_frame(&frame, endpoint_id, &mut self.client, medium);
    }

    fn initiate(&mut self, endpoint_id: &str, medium: Medium) {
        self.bwu.initiate_bwu_for_endpoint(&mut self.client, endpoint_id, medium);
    }

    /// The peer opens a channel and introduces itself. Gives that channel.
    fn notify(&mut self, medium: Medium, index: usize) -> &FakeEndpointChannel {
        let records = self.records(medium).clone();
        notify_bwu_manager_of_incoming_connection(
            &records,
            medium,
            index,
            &mut self.bwu,
            &mut self.client,
        )
    }

    /// Drives a full successful upgrade end to end.
    fn fully_upgrade_endpoint(
        &mut self,
        endpoint_id: &str,
        initial_medium: Medium,
        upgrade_medium: Medium,
    ) {
        self.initiate(endpoint_id, upgrade_medium);
        let index = self.records(upgrade_medium).handle_initialize_calls.len() - 1;
        self.notify(upgrade_medium, index);
        self.feed(for_bwu_last_write(), endpoint_id, initial_medium);
        self.feed(for_bwu_safe_to_close(), endpoint_id, initial_medium);
    }

    fn unregister(&mut self, endpoint_id: &str) {
        self.bwu.unregister_channel_for_endpoint(
            endpoint_id,
            DisconnectionReason::LocalDisconnection,
            SafeDisconnectionResult::SafeDisconnection,
        );
    }

    fn on_endpoint_disconnect(&mut self, service_id: &str, endpoint_id: &str) {
        self.bwu.on_endpoint_disconnect(
            &mut self.client,
            service_id,
            endpoint_id,
            DisconnectionReason::LocalDisconnection,
        );
    }
}

/// An offer without the confirmation of an introduction, so that the side that is
/// offered the medium completes without reading one.
fn responder_path_available_frame(medium: Medium) -> pb::OfflineFrame {
    let bytes = match medium {
        Medium::WifiDirect => for_bwu_wifi_direct_path_available(
            "",
            "",
            2143,
            2412,
            false,
            "123.234.23.1",
            "NC-WifiDirectTest",
            "b592f7d3",
        ),
        Medium::WifiHotspot => {
            let creds = upi::WifiHotspotCredentials {
                ssid: Some("Direct-357a2d8c".to_string()),
                password: Some("b592f7d3".to_string()),
                port: Some(1234),
                frequency: Some(2412),
                gateway: Some("123.234.23.1".to_string()),
                ..Default::default()
            };
            for_bwu_wifi_hotspot_path_available(creds, false)
        }
        Medium::WifiLan => for_bwu_wifi_lan_path_available(&[ServiceAddress {
            address: vec![b'A', b'B', b'C', b'D'],
            port: 1234,
        }]),
        _ => panic!("unsupported responder medium {medium:?}"),
    };
    let mut frame = from_bytes(&bytes).expect("frame should parse");
    if let Some(info) = frame
        .v1
        .as_mut()
        .and_then(|v1| v1.bandwidth_upgrade_negotiation.as_mut())
        .and_then(|b| b.upgrade_path_info.as_mut())
    {
        info.supports_client_introduction_ack = Some(false);
    }
    frame
}

fn web_rtc_upgrade_path_info() -> bwu_pb::UpgradePathInfo {
    bwu_pb::UpgradePathInfo { medium: Some(upi::Medium::WebRtc.value()), ..Default::default() }
}

fn initiate_bwu_success(support_multiple: bool) {
    let mut f = fixture(support_multiple);
    f.create_initial_endpoint(SERVICE_A, ENDPOINT_1, Medium::Bluetooth);

    f.initiate(ENDPOINT_1, Medium::WebRtc);

    // Only the handler of the medium was asked, with the wrapped service id.
    {
        let r = f.records(Medium::WebRtc);
        assert_eq!(r.handle_initialize_calls.len(), 1);
        assert_eq!(r.handle_initialize_calls[0].service_id.as_deref(), Some("ServiceA_UPGRADE"));
        assert_eq!(r.handle_initialize_calls[0].endpoint_id.as_deref(), Some(ENDPOINT_1));
    }
    assert!(f.records(Medium::WifiLan).handle_initialize_calls.is_empty());
    assert!(f.records(Medium::WifiHotspot).handle_initialize_calls.is_empty());
    assert!(f.records(Medium::WifiDirect).handle_initialize_calls.is_empty());
    assert!(f.bwu.is_upgrade_ongoing(ENDPOINT_1));

    // The channel has not been swapped yet.
    assert_eq!(f.current_medium(ENDPOINT_1), Medium::Bluetooth);

    // The peer opens a channel over the new medium and introduces itself.
    let upgraded = f.notify(Medium::WebRtc, 0);
    assert_eq!(upgraded.medium(), Medium::WebRtc);
    assert!(upgraded.is_paused());

    // The channel is swapped, and paused until the prior one is drained.
    assert_eq!(f.current_medium(ENDPOINT_1), Medium::WebRtc);
    assert!(f.channel(ENDPOINT_1).is_paused());
    assert!(!f.bwu.previous_channel(ENDPOINT_1).unwrap().is_closed());

    f.feed(for_bwu_last_write(), ENDPOINT_1, Medium::Bluetooth);
    f.feed(for_bwu_safe_to_close(), ENDPOINT_1, Medium::Bluetooth);

    assert!(!f.channel(ENDPOINT_1).is_paused());
    let initial = f.bwu.retired().last().unwrap();
    assert_eq!(initial.medium(), Medium::Bluetooth);
    assert!(initial.is_closed());
    assert_eq!(initial.disconnection_reason(), DisconnectionReason::Upgraded);
}

#[test]
fn reset_upgrade_reoffers_without_reverting_the_medium() {
    let mut f = fixture(false);
    f.create_initial_endpoint(SERVICE_A, ENDPOINT_1, Medium::Bluetooth);

    f.initiate(ENDPOINT_1, Medium::WebRtc);
    assert!(f.bwu.is_upgrade_ongoing(ENDPOINT_1));
    assert_eq!(f.records(Medium::WebRtc).handle_initialize_calls.len(), 1);

    // A second offer without a reset is dropped.
    f.initiate(ENDPOINT_1, Medium::WebRtc);
    assert_eq!(
        f.records(Medium::WebRtc).handle_initialize_calls.len(),
        1,
        "the in-progress guard drops a re-offer"
    );

    // A reset makes the offer possible again...
    f.bwu.reset_upgrade_for_endpoint(ENDPOINT_1);
    assert!(!f.bwu.is_upgrade_ongoing(ENDPOINT_1));

    // ...and it is made, with the medium as it stands.
    f.initiate(ENDPOINT_1, Medium::WebRtc);
    assert!(f.bwu.is_upgrade_ongoing(ENDPOINT_1));
    let r = f.records(Medium::WebRtc);
    assert_eq!(
        r.handle_initialize_calls.len(),
        2,
        "the re-offer re-initializes the (reused) medium"
    );
    assert!(
        r.handle_revert_calls.is_empty(),
        "reset must NOT revert/tear down the medium (no SoftAP churn)"
    );
}

#[test]
fn initiate_bwu_success_flag_disabled() {
    initiate_bwu_success(false);
}

#[test]
fn initiate_bwu_success_flag_enabled() {
    initiate_bwu_success(true);
}

#[test]
fn receive_unexpected_safe_to_close_does_not_crash() {
    let mut f = fixture(true);
    f.feed(for_bwu_safe_to_close(), ENDPOINT_1, Medium::Bluetooth);
    assert!(!f.bwu.is_upgrade_ongoing(ENDPOINT_1));
}

#[test]
fn receive_unexpected_last_write_does_not_crash() {
    let mut f = fixture(true);
    f.feed(for_bwu_last_write(), ENDPOINT_1, Medium::Bluetooth);
    assert!(!f.bwu.is_upgrade_ongoing(ENDPOINT_1));
}

#[test]
fn receive_early_last_write_completes_upgrade() {
    let mut f = fixture(true);
    f.create_initial_endpoint(SERVICE_A, ENDPOINT_1, Medium::Bluetooth);
    f.initiate(ENDPOINT_1, Medium::WebRtc);
    assert!(f.bwu.is_upgrade_ongoing(ENDPOINT_1));

    // The last write comes before the peer has opened the new channel.
    f.feed(for_bwu_last_write(), ENDPOINT_1, Medium::Bluetooth);
    f.notify(Medium::WebRtc, 0);
    f.feed(for_bwu_safe_to_close(), ENDPOINT_1, Medium::Bluetooth);

    assert!(!f.channel(ENDPOINT_1).is_paused());
    let initial = f.bwu.retired().last().unwrap();
    assert!(initial.is_closed());
    assert_eq!(initial.disconnection_reason(), DisconnectionReason::Upgraded);
}

#[test]
fn receive_unexpected_last_write_before_upgrade_does_not_wedge() {
    let mut f = fixture(true);

    // A last write before the endpoint even exists.
    f.feed(for_bwu_last_write(), ENDPOINT_1, Medium::Bluetooth);

    f.create_initial_endpoint(SERVICE_A, ENDPOINT_1, Medium::Bluetooth);
    f.initiate(ENDPOINT_1, Medium::WebRtc);
    f.notify(Medium::WebRtc, 0);

    // A second one during the upgrade, and the end of the prior channel.
    f.feed(for_bwu_last_write(), ENDPOINT_1, Medium::Bluetooth);
    f.feed(for_bwu_safe_to_close(), ENDPOINT_1, Medium::Bluetooth);

    assert!(!f.channel(ENDPOINT_1).is_paused());
    assert!(f.bwu.retired().last().unwrap().is_closed());
}

fn upgrade_path_available_frame() -> Vec<u8> {
    for_bwu_wifi_lan_path_available(&[ServiceAddress { address: vec![1, 2, 3, 4], port: 1234 }])
}

#[test]
fn block_bwu_frame_before_accept() {
    let mut f = fixture(true);
    // A channel without an accepted connection.
    f.bwu.register_channel_for_endpoint(
        &f.client,
        ENDPOINT_2,
        FakeEndpointChannel::new(Medium::Bluetooth, SERVICE_A),
    );

    f.feed(upgrade_path_available_frame(), ENDPOINT_2, Medium::Bluetooth);

    assert!(!f.bwu.is_upgrade_ongoing(ENDPOINT_2));
}

#[test]
fn block_bwu_frame_from_advertiser() {
    let mut f = fixture(true);
    // An accepted connection that the other side asked for.
    f.client.on_connection_initiated(ENDPOINT_2, true, false);
    f.client.local_endpoint_accepted_connection(ENDPOINT_2);
    f.client.remote_endpoint_accepted_connection(ENDPOINT_2);
    assert!(f.client.is_connection_accepted(ENDPOINT_2));
    f.client.on_connection_accepted(ENDPOINT_2);
    assert!(f.client.is_connected_to_endpoint(ENDPOINT_2));
    f.bwu.register_channel_for_endpoint(
        &f.client,
        ENDPOINT_2,
        FakeEndpointChannel::new(Medium::Bluetooth, SERVICE_A),
    );

    f.feed(upgrade_path_available_frame(), ENDPOINT_2, Medium::Bluetooth);

    assert!(!f.bwu.is_upgrade_ongoing(ENDPOINT_2));
}

// --- offers that are not made ------------------------------------------------

#[test]
fn dont_upgrade_if_already_connected_over_requested_medium() {
    let mut f = fixture(true);
    f.create_initial_endpoint(SERVICE_A, ENDPOINT_1, Medium::Bluetooth);
    f.fully_upgrade_endpoint(ENDPOINT_1, Medium::Bluetooth, Medium::WebRtc);
    assert_eq!(f.records(Medium::WebRtc).handle_initialize_calls.len(), 1);

    f.initiate(ENDPOINT_1, Medium::WebRtc);
    assert_eq!(f.records(Medium::WebRtc).handle_initialize_calls.len(), 1);
}

#[test]
fn dont_upgrade_from_wifi_lan_to_wifi_hotspot() {
    let mut f = fixture(true);
    f.create_initial_endpoint(SERVICE_A, ENDPOINT_1, Medium::WifiLan);
    f.initiate(ENDPOINT_1, Medium::WifiHotspot);
    assert!(f.records(Medium::WifiHotspot).handle_initialize_calls.is_empty());
}

#[test]
fn dont_upgrade_from_wifi_lan_to_wifi_direct() {
    let mut f = fixture(true);
    f.create_initial_endpoint(SERVICE_A, ENDPOINT_1, Medium::WifiLan);
    f.initiate(ENDPOINT_1, Medium::WifiDirect);
    assert!(f.records(Medium::WifiDirect).handle_initialize_calls.is_empty());
    assert!(!f.channel(ENDPOINT_1).wrote_anything());
    assert!(!f.bwu.is_upgrade_ongoing(ENDPOINT_1));

    // It is enough that another endpoint is connected over the local network.
    f.create_initial_endpoint(SERVICE_A, ENDPOINT_2, Medium::Bluetooth);
    for medium in [Medium::WifiDirect, Medium::WifiHotspot] {
        f.initiate(ENDPOINT_2, medium);
        assert!(f.records(medium).handle_initialize_calls.is_empty());
        assert!(!f.channel(ENDPOINT_2).wrote_anything());
        assert!(!f.bwu.is_upgrade_ongoing(ENDPOINT_2));
    }
    // Other mediums are not held back.
    f.initiate(ENDPOINT_2, Medium::WebRtc);
    assert!(f.bwu.is_upgrade_ongoing(ENDPOINT_2));
}

#[test]
fn no_initial_medium() {
    let mut f = fixture(true);
    f.initiate(ENDPOINT_1, Medium::WifiHotspot);
    for medium in [Medium::WebRtc, Medium::WifiLan, Medium::WifiDirect, Medium::WifiHotspot] {
        assert!(f.records(medium).handle_initialize_calls.is_empty());
    }
}

#[test]
fn upgrade_already_in_progress() {
    let mut f = fixture(true);
    f.create_initial_endpoint(SERVICE_A, ENDPOINT_1, Medium::Bluetooth);
    f.initiate(ENDPOINT_1, Medium::WebRtc);
    assert_eq!(f.records(Medium::WebRtc).handle_initialize_calls.len(), 1);

    f.initiate(ENDPOINT_1, Medium::WifiLan);
    assert_eq!(f.records(Medium::WebRtc).handle_initialize_calls.len(), 1);
    assert!(f.records(Medium::WifiLan).handle_initialize_calls.is_empty());
}

#[test]
fn failed_to_write_upgrade_path_available_frame() {
    let mut f = fixture(true);
    let mut initial = FakeEndpointChannel::new(Medium::Bluetooth, SERVICE_A);
    // Writing the offer will fail.
    initial.set_write_output(Exception::Io);
    f.create_endpoint(ENDPOINT_1, initial);

    f.initiate(ENDPOINT_1, Medium::WebRtc);
    // The handler was asked before the write...
    assert_eq!(f.records(Medium::WebRtc).handle_initialize_calls.len(), 1);
    // ...which failed, so no upgrade is in progress.
    assert!(!f.bwu.is_upgrade_ongoing(ENDPOINT_1));
    assert_eq!(f.current_medium(ENDPOINT_1), Medium::Bluetooth);

    // A channel that is opened later is turned away.
    f.notify(Medium::WebRtc, 0);
    assert_eq!(f.current_medium(ENDPOINT_1), Medium::Bluetooth);
}

// --- reverting ---------------------------------------------------------------

#[test]
fn revert_on_disconnect_multiple_endpoints_flag_enabled() {
    let mut f = fixture(true);
    f.create_initial_endpoint(SERVICE_A, ENDPOINT_1, Medium::Bluetooth);
    f.create_initial_endpoint(SERVICE_A, ENDPOINT_2, Medium::Bluetooth);
    f.fully_upgrade_endpoint(ENDPOINT_1, Medium::Bluetooth, Medium::WebRtc);
    f.fully_upgrade_endpoint(ENDPOINT_2, Medium::Bluetooth, Medium::WebRtc);

    f.unregister(ENDPOINT_1);
    f.on_endpoint_disconnect(SERVICE_A_UPGRADE, ENDPOINT_1);
    {
        let r = f.records(Medium::WebRtc);
        assert_eq!(r.disconnect_calls.len(), 1);
        assert_eq!(r.disconnect_calls[0].endpoint_id.as_deref(), Some(ENDPOINT_1));
        // Not the last endpoint of the service.
        assert!(r.handle_revert_calls.is_empty());
    }

    f.unregister(ENDPOINT_2);
    f.on_endpoint_disconnect(SERVICE_A_UPGRADE, ENDPOINT_2);
    {
        let r = f.records(Medium::WebRtc);
        assert_eq!(r.disconnect_calls.len(), 2);
        assert_eq!(r.disconnect_calls[1].endpoint_id.as_deref(), Some(ENDPOINT_2));
        assert_eq!(r.handle_revert_calls.len(), 1);
        assert_eq!(r.handle_revert_calls[0].service_id.as_deref(), Some(SERVICE_A_UPGRADE));
    }
}

#[test]
fn revert_on_disconnect_multiple_endpoints_flag_disabled() {
    let mut f = fixture(false);
    f.create_initial_endpoint(SERVICE_A, ENDPOINT_1, Medium::Bluetooth);
    f.create_initial_endpoint(SERVICE_A, ENDPOINT_2, Medium::Bluetooth);
    f.fully_upgrade_endpoint(ENDPOINT_1, Medium::Bluetooth, Medium::WebRtc);
    f.fully_upgrade_endpoint(ENDPOINT_2, Medium::Bluetooth, Medium::WebRtc);

    // Everything is reverted while one endpoint remains.
    f.unregister(ENDPOINT_1);
    f.on_endpoint_disconnect(SERVICE_A_UPGRADE, ENDPOINT_1);
    {
        let r = f.records(Medium::WebRtc);
        assert_eq!(r.disconnect_calls.len(), 1);
        assert_eq!(r.handle_revert_calls.len(), 1);
        assert_eq!(r.handle_revert_calls[0].service_id.as_deref(), Some(SERVICE_A_UPGRADE));
    }

    // Nothing is left to revert.
    f.unregister(ENDPOINT_2);
    f.on_endpoint_disconnect(SERVICE_A_UPGRADE, ENDPOINT_2);
    {
        let r = f.records(Medium::WebRtc);
        assert_eq!(r.disconnect_calls.len(), 1);
        assert_eq!(r.handle_revert_calls.len(), 1);
    }
}

#[test]
fn revert_on_disconnect_multiple_services_flag_enabled() {
    let mut f = fixture(true);
    f.create_initial_endpoint(SERVICE_A, ENDPOINT_1, Medium::Bluetooth);
    f.create_initial_endpoint(SERVICE_B, ENDPOINT_2, Medium::Bluetooth);
    f.fully_upgrade_endpoint(ENDPOINT_1, Medium::Bluetooth, Medium::WifiLan);
    f.fully_upgrade_endpoint(ENDPOINT_2, Medium::Bluetooth, Medium::WifiLan);
    assert_eq!(f.bwu.channel_manager().get_connected_endpoints_count(), 2);

    f.unregister(ENDPOINT_1);
    f.on_endpoint_disconnect(SERVICE_A_UPGRADE, ENDPOINT_1);
    {
        let r = f.records(Medium::WifiLan);
        assert_eq!(r.disconnect_calls.len(), 1);
        assert_eq!(r.handle_revert_calls.len(), 1);
        assert_eq!(r.handle_revert_calls[0].service_id.as_deref(), Some(SERVICE_A_UPGRADE));
    }

    f.unregister(ENDPOINT_2);
    f.on_endpoint_disconnect(SERVICE_B_UPGRADE, ENDPOINT_2);
    {
        let r = f.records(Medium::WifiLan);
        assert_eq!(r.disconnect_calls.len(), 2);
        assert_eq!(r.handle_revert_calls.len(), 2);
        assert_eq!(r.handle_revert_calls[1].service_id.as_deref(), Some(SERVICE_B_UPGRADE));
    }
}

#[test]
fn revert_on_disconnect_multiple_services_flag_disabled() {
    let mut f = fixture(false);
    f.create_initial_endpoint(SERVICE_A, ENDPOINT_1, Medium::Bluetooth);
    f.create_initial_endpoint(SERVICE_B, ENDPOINT_2, Medium::Bluetooth);
    f.fully_upgrade_endpoint(ENDPOINT_1, Medium::Bluetooth, Medium::WifiLan);
    f.fully_upgrade_endpoint(ENDPOINT_2, Medium::Bluetooth, Medium::WifiLan);

    // All services are reverted at once.
    f.unregister(ENDPOINT_1);
    f.on_endpoint_disconnect(SERVICE_A_UPGRADE, ENDPOINT_1);
    {
        let r = f.records(Medium::WifiLan);
        assert_eq!(r.disconnect_calls.len(), 1);
        assert_eq!(r.handle_revert_calls.len(), 2);
    }

    f.unregister(ENDPOINT_2);
    f.on_endpoint_disconnect(SERVICE_B_UPGRADE, ENDPOINT_2);
    {
        let r = f.records(Medium::WifiLan);
        assert_eq!(r.disconnect_calls.len(), 1);
        assert_eq!(r.handle_revert_calls.len(), 2);
    }
}

#[test]
fn revert_on_disconnect_multiple_services_and_endpoints_flag_enabled() {
    let mut f = fixture(true);
    f.create_initial_endpoint(SERVICE_A, ENDPOINT_1, Medium::Bluetooth);
    f.create_initial_endpoint(SERVICE_A, ENDPOINT_2, Medium::Bluetooth);
    f.create_initial_endpoint(SERVICE_B, ENDPOINT_3, Medium::Bluetooth);
    f.create_initial_endpoint(SERVICE_B, ENDPOINT_4, Medium::Bluetooth);
    f.create_initial_endpoint(SERVICE_B, ENDPOINT_5, Medium::Bluetooth);
    f.fully_upgrade_endpoint(ENDPOINT_1, Medium::Bluetooth, Medium::WebRtc);
    f.fully_upgrade_endpoint(ENDPOINT_4, Medium::Bluetooth, Medium::WifiHotspot);
    f.fully_upgrade_endpoint(ENDPOINT_5, Medium::Bluetooth, Medium::WifiDirect);
    f.fully_upgrade_endpoint(ENDPOINT_2, Medium::Bluetooth, Medium::WifiLan);
    f.fully_upgrade_endpoint(ENDPOINT_3, Medium::Bluetooth, Medium::WifiLan);

    f.unregister(ENDPOINT_1);
    f.on_endpoint_disconnect(SERVICE_A_UPGRADE, ENDPOINT_1);
    {
        let r = f.records(Medium::WebRtc);
        assert_eq!(r.disconnect_calls.len(), 1);
        assert_eq!(r.handle_revert_calls.len(), 1);
        assert_eq!(r.handle_revert_calls[0].service_id.as_deref(), Some(SERVICE_A_UPGRADE));
    }

    f.unregister(ENDPOINT_2);
    f.on_endpoint_disconnect(SERVICE_A_UPGRADE, ENDPOINT_2);
    {
        let r = f.records(Medium::WifiLan);
        assert_eq!(r.disconnect_calls.len(), 1);
        assert_eq!(r.handle_revert_calls.len(), 1);
        assert_eq!(r.handle_revert_calls[0].service_id.as_deref(), Some(SERVICE_A_UPGRADE));
    }

    f.unregister(ENDPOINT_3);
    f.on_endpoint_disconnect(SERVICE_B_UPGRADE, ENDPOINT_3);
    {
        let r = f.records(Medium::WifiLan);
        assert_eq!(r.disconnect_calls.len(), 2);
        assert_eq!(r.handle_revert_calls.len(), 2);
        assert_eq!(r.handle_revert_calls[1].service_id.as_deref(), Some(SERVICE_B_UPGRADE));
    }

    f.unregister(ENDPOINT_4);
    f.on_endpoint_disconnect(SERVICE_B_UPGRADE, ENDPOINT_4);
    {
        let r = f.records(Medium::WifiHotspot);
        assert_eq!(r.disconnect_calls.len(), 1);
        assert_eq!(r.handle_revert_calls.len(), 1);
        assert_eq!(r.handle_revert_calls[0].service_id.as_deref(), Some(SERVICE_B_UPGRADE));
    }

    f.unregister(ENDPOINT_5);
    f.on_endpoint_disconnect(SERVICE_B_UPGRADE, ENDPOINT_5);
    {
        let r = f.records(Medium::WifiDirect);
        assert_eq!(r.disconnect_calls.len(), 1);
        assert_eq!(r.handle_revert_calls.len(), 1);
        assert_eq!(r.handle_revert_calls[0].service_id.as_deref(), Some(SERVICE_B_UPGRADE));
    }

    assert_eq!(f.records(Medium::WebRtc).disconnect_calls.len(), 1);
    assert_eq!(f.records(Medium::WebRtc).handle_revert_calls.len(), 1);
}

fn setup_upgrade_failure(support_multiple: bool) -> Fixture {
    let mut f = fixture(support_multiple);
    f.create_initial_endpoint(SERVICE_A, ENDPOINT_1, Medium::Bluetooth);
    f.create_initial_endpoint(SERVICE_A, ENDPOINT_2, Medium::Bluetooth);
    f.fully_upgrade_endpoint(ENDPOINT_1, Medium::Bluetooth, Medium::WebRtc);
    f.fully_upgrade_endpoint(ENDPOINT_2, Medium::Bluetooth, Medium::WebRtc);
    f.create_initial_endpoint(SERVICE_B, ENDPOINT_3, Medium::Bluetooth);
    f.initiate(ENDPOINT_3, Medium::WebRtc);
    // The third call was made for the third endpoint.
    f.notify(Medium::WebRtc, 2);
    f
}

#[test]
fn revert_on_upgrade_failure_flag_enabled() {
    let mut f = setup_upgrade_failure(true);
    let failure = for_bwu_failure(web_rtc_upgrade_path_info());
    f.feed(failure, ENDPOINT_3, Medium::WebRtc);
    let r = f.records(Medium::WebRtc);
    assert_eq!(r.handle_revert_calls.len(), 1);
    assert_eq!(r.handle_revert_calls[0].service_id.as_deref(), Some(SERVICE_B_UPGRADE));
}

#[test]
fn revert_on_upgrade_failure_flag_disabled() {
    let mut f = setup_upgrade_failure(false);
    let failure = for_bwu_failure(web_rtc_upgrade_path_info());
    f.feed(failure, ENDPOINT_3, Medium::WebRtc);
    // Other endpoints share the medium.
    assert!(f.records(Medium::WebRtc).handle_revert_calls.is_empty());
}

#[test]
fn revert_on_disconnect_wifi_direct_responder() {
    let mut f = fixture(true);
    f.create_initial_endpoint(SERVICE_A, ENDPOINT_1, Medium::Bluetooth);
    let frame = responder_path_available_frame(Medium::WifiDirect);
    f.bwu.on_incoming_frame(&frame, ENDPOINT_1, &mut f.client, Medium::Bluetooth);

    // The side that joined the medium disconnects with the plain service id.
    f.on_endpoint_disconnect(SERVICE_A, ENDPOINT_1);
    let r = f.records(Medium::WifiDirect);
    assert_eq!(r.disconnect_calls.len(), 1);
    assert_eq!(r.disconnect_calls[0].endpoint_id.as_deref(), Some(ENDPOINT_1));
    assert_eq!(r.handle_revert_calls.len(), 1);
}

#[test]
fn revert_on_disconnect_hotspot_responder() {
    let mut f = fixture(true);
    f.create_initial_endpoint(SERVICE_A, ENDPOINT_1, Medium::Bluetooth);
    let frame = responder_path_available_frame(Medium::WifiHotspot);
    f.bwu.on_incoming_frame(&frame, ENDPOINT_1, &mut f.client, Medium::Bluetooth);

    f.on_endpoint_disconnect(SERVICE_A, ENDPOINT_1);
    assert_eq!(f.records(Medium::WifiHotspot).handle_revert_calls.len(), 1);
}

#[test]
fn revert_on_disconnect_wifi_lan_responder() {
    let mut f = fixture(true);
    f.create_initial_endpoint(SERVICE_A, ENDPOINT_1, Medium::Bluetooth);
    let frame = responder_path_available_frame(Medium::WifiLan);
    f.bwu.on_incoming_frame(&frame, ENDPOINT_1, &mut f.client, Medium::Bluetooth);

    f.on_endpoint_disconnect(SERVICE_A, ENDPOINT_1);
    // There is nothing to leave.
    assert!(f.records(Medium::WifiLan).handle_revert_calls.is_empty());
}

// --- what is joined ----------------------------------------------------------

#[test]
fn responder_moves_to_the_offered_medium() {
    let mut f = fixture(true);
    f.create_initial_endpoint(SERVICE_A, ENDPOINT_1, Medium::Bluetooth);
    let frame = responder_path_available_frame(Medium::WifiLan);
    f.bwu.on_incoming_frame(&frame, ENDPOINT_1, &mut f.client, Medium::Bluetooth);

    assert!(f.bwu.is_upgrade_ongoing(ENDPOINT_1));
    assert_eq!(f.current_medium(ENDPOINT_1), Medium::WifiLan);
    assert!(f.channel(ENDPOINT_1).is_paused());
    assert!(f.channel(ENDPOINT_1).wrote_anything());
    assert_eq!(f.channel(ENDPOINT_1).local_endpoint_id(), "LocalEndpoint");
    let r = f.records(Medium::WifiLan);
    assert_eq!(r.create_calls.len(), 1);
    // The side that joins uses the plain service id.
    assert_eq!(r.create_calls[0].service_id.as_deref(), Some(SERVICE_A));
    assert_eq!(f.bwu.previous_channel(ENDPOINT_1).unwrap().medium(), Medium::Bluetooth);

    f.feed(for_bwu_last_write(), ENDPOINT_1, Medium::Bluetooth);
    f.feed(for_bwu_safe_to_close(), ENDPOINT_1, Medium::Bluetooth);
    assert!(!f.bwu.is_upgrade_ongoing(ENDPOINT_1));
    assert!(f.bwu.previous_channel(ENDPOINT_1).is_none());
    assert_eq!(
        f.client.bandwidth_changed_events(),
        &[(ENDPOINT_1.to_string(), Medium::WifiLan)]
    );
}

#[test]
fn unconfirmed_introduction_refuses_the_offer() {
    let mut f = fixture(true);
    f.create_initial_endpoint(SERVICE_A, ENDPOINT_1, Medium::Bluetooth);
    // The offer asks for a confirmation, which a fresh channel does not give.
    f.feed(upgrade_path_available_frame(), ENDPOINT_1, Medium::Bluetooth);

    assert!(!f.bwu.is_upgrade_ongoing(ENDPOINT_1));
    assert_eq!(f.current_medium(ENDPOINT_1), Medium::Bluetooth);
    // The peer was told, and the new channel closed.
    assert!(f.channel(ENDPOINT_1).wrote_anything());
    assert_eq!(f.bwu.retired().len(), 1);
    assert!(f.bwu.retired()[0].is_closed());
    assert_eq!(f.bwu.retired()[0].medium(), Medium::WifiLan);
}

#[test]
fn hotspot_is_refused_on_the_local_network() {
    let mut f = fixture(true);
    f.create_initial_endpoint(SERVICE_A, ENDPOINT_1, Medium::WifiLan);
    let frame = responder_path_available_frame(Medium::WifiHotspot);
    f.bwu.on_incoming_frame(&frame, ENDPOINT_1, &mut f.client, Medium::WifiLan);
    assert!(!f.bwu.is_upgrade_ongoing(ENDPOINT_1));
    assert!(f.records(Medium::WifiHotspot).create_calls.is_empty());
    assert!(f.channel(ENDPOINT_1).wrote_anything());
}

#[test]
fn wifi_direct_is_refused_on_the_local_network() {
    let mut f = fixture(true);
    f.create_initial_endpoint(SERVICE_A, ENDPOINT_1, Medium::WifiLan);
    let frame = responder_path_available_frame(Medium::WifiDirect);
    f.bwu.on_incoming_frame(&frame, ENDPOINT_1, &mut f.client, Medium::WifiLan);
    assert!(!f.bwu.is_upgrade_ongoing(ENDPOINT_1));
    assert!(f.records(Medium::WifiDirect).create_calls.is_empty());
    assert!(f.channel(ENDPOINT_1).wrote_anything());
    assert!(!f.channel(ENDPOINT_1).is_closed());
}

#[test]
fn second_safe_to_close_does_nothing() {
    let mut f = fixture(true);
    f.create_initial_endpoint(SERVICE_A, ENDPOINT_1, Medium::Bluetooth);
    f.fully_upgrade_endpoint(ENDPOINT_1, Medium::Bluetooth, Medium::WebRtc);
    assert_eq!(f.client.bandwidth_changed_events().len(), 1);
    assert_eq!(f.bwu.retired().len(), 1);

    f.feed(for_bwu_safe_to_close(), ENDPOINT_1, Medium::Bluetooth);
    assert_eq!(f.client.bandwidth_changed_events().len(), 1);
    assert_eq!(f.bwu.retired().len(), 1);
    assert!(!f.bwu.is_upgrade_ongoing(ENDPOINT_1));
}

#[test]
fn second_revert_does_nothing() {
    let mut f = fixture(true);
    f.create_initial_endpoint(SERVICE_A, ENDPOINT_1, Medium::Bluetooth);
    f.initiate(ENDPOINT_1, Medium::WebRtc);
    f.on_endpoint_disconnect(SERVICE_A_UPGRADE, ENDPOINT_1);
    assert_eq!(f.records(Medium::WebRtc).handle_revert_calls.len(), 1);
    f.on_endpoint_disconnect(SERVICE_A_UPGRADE, ENDPOINT_1);
    assert_eq!(f.records(Medium::WebRtc).handle_revert_calls.len(), 1);
}

#[test]
fn channel_that_is_turned_away_is_given_back() {
    let mut f = fixture(true);
    f.create_initial_endpoint(SERVICE_A, ENDPOINT_1, Medium::Bluetooth);
    f.initiate(ENDPOINT_1, Medium::WebRtc);
    f.bwu.reset_upgrade_for_endpoint(ENDPOINT_1);
    // No upgrade is in progress: the introduction is confirmed, and that is all.
    let turned_away = f.notify(Medium::WebRtc, 0);
    assert_eq!(turned_away.medium(), Medium::WebRtc);
    assert!(turned_away.wrote_anything());
    assert!(!turned_away.is_paused());
    assert!(!turned_away.is_closed());
    assert_eq!(f.current_medium(ENDPOINT_1), Medium::Bluetooth);
}

#[test]
fn recorded_endpoint_introduces_itself() {
    let mut f = fixture(true);
    f.create_initial_endpoint(SERVICE_A, ENDPOINT_1, Medium::Bluetooth);
    f.create_initial_endpoint(SERVICE_A, ENDPOINT_2, Medium::Bluetooth);
    f.initiate(ENDPOINT_1, Medium::WebRtc);
    f.initiate(ENDPOINT_2, Medium::WebRtc);

    // The second call on record was made for the second endpoint, and it alone moves.
    f.notify(Medium::WebRtc, 1);
    assert_eq!(f.current_medium(ENDPOINT_1), Medium::Bluetooth);
    assert_eq!(f.current_medium(ENDPOINT_2), Medium::WebRtc);
}

#[test]
fn refusal_that_cannot_be_written_closes_the_channel() {
    let mut f = fixture(true);
    let mut initial = FakeEndpointChannel::new(Medium::WifiLan, SERVICE_A);
    initial.set_write_output(Exception::Io);
    f.create_endpoint(ENDPOINT_1, initial);
    let frame = responder_path_available_frame(Medium::WifiHotspot);
    f.bwu.on_incoming_frame(&frame, ENDPOINT_1, &mut f.client, Medium::WifiLan);
    assert!(f.channel(ENDPOINT_1).is_closed());
    assert_eq!(f.channel(ENDPOINT_1).disconnection_reason(), DisconnectionReason::IoError);
}

#[test]
fn offer_out_of_step_closes_both_channels() {
    let mut f = fixture(true);
    f.create_initial_endpoint(SERVICE_A, ENDPOINT_1, Medium::Bluetooth);
    f.initiate(ENDPOINT_1, Medium::WebRtc);
    f.notify(Medium::WebRtc, 0);
    f.feed(upgrade_path_available_frame(), ENDPOINT_1, Medium::WebRtc);

    assert!(f.channel(ENDPOINT_1).is_closed());
    assert!(!f.channel(ENDPOINT_1).is_paused());
    assert_eq!(f.channel(ENDPOINT_1).disconnection_reason(), DisconnectionReason::Unfinished);
    let prior = f.bwu.retired().last().unwrap();
    assert_eq!(prior.medium(), Medium::Bluetooth);
    assert_eq!(prior.disconnection_reason(), DisconnectionReason::Unfinished);
}

#[test]
fn channel_without_an_introduction_is_closed() {
    let mut f = fixture(true);
    f.create_initial_endpoint(SERVICE_A, ENDPOINT_1, Medium::Bluetooth);
    f.initiate(ENDPOINT_1, Medium::WebRtc);
    for data in [Err(Exception::Io), Ok(vec![0xff]), Ok(for_bwu_introduction_ack())] {
        let mut channel = FakeEndpointChannel::new(Medium::WebRtc, SERVICE_A_UPGRADE);
        channel.set_read_output(data);
        f.bwu.invoke_on_incoming_connection_for_testing(
            &mut f.client,
            IncomingSocketConnection { channel },
        );
        let turned_away = f.bwu.retired().last().unwrap();
        assert!(turned_away.is_closed());
        assert!(!turned_away.wrote_anything());
    }
    assert_eq!(f.current_medium(ENDPOINT_1), Medium::Bluetooth);
}

#[test]
fn introduction_that_cannot_be_confirmed_is_closed() {
    let mut f = fixture(true);
    f.create_initial_endpoint(SERVICE_A, ENDPOINT_1, Medium::Bluetooth);
    f.initiate(ENDPOINT_1, Medium::WebRtc);
    let mut channel = FakeEndpointChannel::new(Medium::WebRtc, SERVICE_A_UPGRADE);
    channel.set_read_output(Ok(for_bwu_introduction(ENDPOINT_1, "", false)));
    channel.set_write_output(Exception::Io);
    f.bwu.on_incoming_connection(&mut f.client, IncomingSocketConnection { channel });
    assert!(f.bwu.retired().last().unwrap().is_closed());
    assert_eq!(f.current_medium(ENDPOINT_1), Medium::Bluetooth);
}

#[test]
fn disconnect_in_the_middle_closes_the_prior_channel() {
    let mut f = fixture(true);
    f.create_initial_endpoint(SERVICE_A, ENDPOINT_1, Medium::Bluetooth);
    f.initiate(ENDPOINT_1, Medium::WebRtc);
    f.notify(Medium::WebRtc, 0);
    f.on_endpoint_disconnect(SERVICE_A_UPGRADE, ENDPOINT_1);
    assert!(!f.bwu.is_upgrade_ongoing(ENDPOINT_1));
    assert!(f.bwu.previous_channel(ENDPOINT_1).is_none());
    let taken = f.bwu.take_retired();
    assert_eq!(taken.len(), 1);
    assert_eq!(taken[0].disconnection_reason(), DisconnectionReason::Shutdown);
    assert!(f.bwu.retired().is_empty());
}

#[test]
fn steps_of_one_endpoint_leave_the_others_alone() {
    let mut f = fixture(true);
    f.create_initial_endpoint(SERVICE_A, ENDPOINT_1, Medium::Bluetooth);
    f.create_initial_endpoint(SERVICE_A, ENDPOINT_2, Medium::Bluetooth);
    f.initiate(ENDPOINT_2, Medium::WifiDirect);
    f.fully_upgrade_endpoint(ENDPOINT_1, Medium::Bluetooth, Medium::WebRtc);
    assert!(f.bwu.is_upgrade_ongoing(ENDPOINT_2));
    assert_eq!(f.current_medium(ENDPOINT_2), Medium::Bluetooth);
    assert!(!f.channel(ENDPOINT_2).is_closed());
}

#[test]
fn shutdown_closes_no_channel() {
    let mut f = fixture(true);
    f.create_initial_endpoint(SERVICE_A, ENDPOINT_1, Medium::Bluetooth);
    f.initiate(ENDPOINT_1, Medium::WebRtc);
    f.notify(Medium::WebRtc, 0);
    assert!(f.bwu.previous_channel(ENDPOINT_1).is_some());

    f.bwu.shutdown();
    assert!(f.bwu.previous_channel(ENDPOINT_1).is_none());
    assert_eq!(f.bwu.retired().len(), 1);
    assert_eq!(f.bwu.retired()[0].medium(), Medium::Bluetooth);
    assert!(!f.bwu.retired()[0].is_closed());
    assert!(!f.channel(ENDPOINT_1).is_closed());
}

#[test]
fn unregistered_channel_is_not_closed() {
    let mut f = fixture(true);
    f.create_initial_endpoint(SERVICE_A, ENDPOINT_1, Medium::Bluetooth);
    f.create_initial_endpoint(SERVICE_A, ENDPOINT_1, Medium::WebRtc);
    f.unregister(ENDPOINT_1);
    f.unregister(ENDPOINT_1);
    let dropped = f.bwu.take_dropped();
    assert_eq!(dropped.len(), 2);
    assert_eq!(dropped[0].medium(), Medium::Bluetooth);
    assert_eq!(dropped[1].medium(), Medium::WebRtc);
    assert!(dropped.iter().all(|c| !c.is_closed()));
    assert!(f.bwu.take_dropped().is_empty());
}

#[test]
fn shutdown_reverts_every_handler_and_keeps_the_channels() {
    let mut f = fixture(true);
    f.create_initial_endpoint(SERVICE_A, ENDPOINT_1, Medium::Bluetooth);
    f.create_initial_endpoint(SERVICE_B, ENDPOINT_2, Medium::Bluetooth);
    f.initiate(ENDPOINT_1, Medium::WebRtc);
    f.initiate(ENDPOINT_2, Medium::WifiDirect);
    f.bwu.shutdown();
    assert_eq!(f.records(Medium::WebRtc).handle_revert_calls.len(), 1);
    assert_eq!(f.records(Medium::WifiDirect).handle_revert_calls.len(), 1);
    assert!(!f.bwu.is_upgrade_ongoing(ENDPOINT_1));
    assert!(!f.bwu.is_upgrade_ongoing(ENDPOINT_2));
    assert_eq!(f.bwu.channel_manager().get_connected_endpoints_count(), 2);
}

#[test]
fn frames_of_other_kinds_are_ignored() {
    let mut f = fixture(true);
    f.create_initial_endpoint(SERVICE_A, ENDPOINT_1, Medium::Bluetooth);
    f.initiate(ENDPOINT_1, Medium::WebRtc);
    f.feed(for_keep_alive(), ENDPOINT_1, Medium::Bluetooth);
    assert!(f.bwu.is_upgrade_ongoing(ENDPOINT_1));
    assert_eq!(f.current_medium(ENDPOINT_1), Medium::Bluetooth);
}

// --- the order of a handshake ------------------------------------------------

type Log = Rc<RefCell<Vec<String>>>;

/// A channel that writes down, in a log that it shares with others, how it is used.
struct LoggedChannel {
    medium: Medium,
    paused: bool,
    reads: Vec<u8>,
    log: Log,
}

impl LoggedChannel {
    fn new(medium: Medium, reads: Vec<u8>, log: &Log) -> LoggedChannel {
        LoggedChannel { medium, paused: false, reads, log: log.clone() }
    }

    fn note(&self, what: &str) {
        self.log.borrow_mut().push(format!("{:?} {}", self.medium, what));
    }
}

impl EndpointChannel for LoggedChannel {
    type Key = ();

    fn read(&mut self) -> Result<Vec<u8>, Exception> {
        self.note("read");
        Ok(self.reads.clone())
    }

    fn write(&mut self, data: &[u8]) -> Exception {
        let frame = from_bytes(data).expect("frame should parse");
        let v1 = frame.v1.unwrap();
        let event = v1.bandwidth_upgrade_negotiation.and_then(|step| step.event_type);
        self.note(&format!("write {:?}", event.and_then(bwu_pb::EventType::from_i32)));
        Exception::Success
    }

    fn close(&mut self) {
        self.note("close");
    }

    fn close_with_reason(&mut self, reason: DisconnectionReason) {
        self.note(&format!("close {:?}", reason));
    }

    fn medium(&self) -> Medium {
        self.medium
    }

    fn service_id(&self) -> String {
        SERVICE_A.to_string()
    }

    fn name(&self) -> String {
        "logged".to_string()
    }

    fn channel_type(&self) -> String {
        "logged".to_string()
    }

    fn local_endpoint_id(&self) -> String {
        String::new()
    }

    fn set_local_endpoint_id(&mut self, _local_endpoint_id: &str) {
        self.note("set local endpoint id");
    }

    fn pause(&mut self) {
        self.paused = true;
        self.note("pause");
    }

    fn resume(&mut self) {
        self.paused = false;
        self.note("resume");
    }

    fn is_paused(&self) -> bool {
        self.paused
    }

    fn enable_encryption(&mut self, _cipher: ()) {
        self.note("enable encryption");
    }

    fn disable_encryption(&mut self) {
        self.note("disable encryption");
    }
}

/// Offers WebRTC and joins nothing.
struct OfferingHandler;

impl MediumBwuHandler<LoggedChannel> for OfferingHandler {
    fn handle_initialize_upgraded_medium_for_endpoint(
        &mut self,
        _client: &ClientProxy,
        _upgrade_service_id: &str,
        _endpoint_id: &str,
    ) -> Vec<u8> {
        for_bwu_webrtc_path_available("peer", pb::LocationHint::default())
    }

    fn handle_revert_initiator_state_for_service(&mut self, _upgrade_service_id: &str) {}

    fn create_upgraded_endpoint_channel(
        &mut self,
        _client: &ClientProxy,
        _service_id: &str,
        _endpoint_id: &str,
        _upgrade_path_info: &bwu_pb::UpgradePathInfo,
    ) -> Option<LoggedChannel> {
        None
    }

    fn get_upgrade_medium(&self) -> Medium {
        Medium::WebRtc
    }

    fn on_endpoint_disconnect(&mut self, _client: &ClientProxy, _endpoint_id: &str) {}
}

#[test]
fn handshake_goes_in_order_over_both_channels() {
    let log: Log = Rc::new(RefCell::new(Vec::new()));
    let mut handlers = HandlerMap::new();
    handlers.insert(Medium::WebRtc, BaseBwuHandler::new(OfferingHandler));
    let mut bwu = BwuManager::new(EndpointChannelManager::new(), handlers, BwuConfig::default());
    let mut client = ClientProxy::new(0, "LocalEndpoint");
    client.on_connection_initiated(ENDPOINT_1, false, false);
    client.on_connection_accepted(ENDPOINT_1);
    let prior = LoggedChannel::new(Medium::Bluetooth, Vec::new(), &log);
    bwu.register_channel_for_endpoint(&client, ENDPOINT_1, prior);

    bwu.initiate_bwu_for_endpoint(&mut client, ENDPOINT_1, Medium::WebRtc);
    let introduction = for_bwu_introduction(ENDPOINT_1, "", false);
    let channel = LoggedChannel::new(Medium::WebRtc, introduction, &log);
    bwu.on_incoming_connection(&mut client, IncomingSocketConnection { channel });
    for bytes in [for_bwu_last_write(), for_bwu_safe_to_close()] {
        let frame = from_bytes(&bytes).expect("frame should parse");
        bwu.on_incoming_frame(&frame, ENDPOINT_1, &mut client, Medium::Bluetooth);
    }

    assert_eq!(
        *log.borrow(),
        [
            "Bluetooth write Some(UpgradePathAvailable)",
            "WebRtc read",
            "WebRtc write Some(ClientIntroductionAck)",
            "WebRtc set local endpoint id",
            "WebRtc pause",
            "Bluetooth write Some(LastWriteToPriorChannel)",
            "Bluetooth write Some(SafeToClosePriorChannel)",
            "Bluetooth disable encryption",
            "Bluetooth write None",
            "Bluetooth read",
            "Bluetooth close Upgraded",
            "WebRtc resume",
        ]
    );
}

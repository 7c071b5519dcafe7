use nearby_rs::bwu::service_id::{
    is_initiator_upgrade_service_id, unwrap_initiator_upgrade_service_id,
    wrap_initiator_upgrade_service_id,
};
use nearby_rs::bwu::str_map::StrMap;
use nearby_rs::bwu::testing::{FakeBwuHandler, FakeEndpointChannel};
use nearby_rs::bwu::{
    BaseBwuHandler, BwuHandler, ClientProxy, DisconnectionReason, EndpointChannel,
    EndpointChannelManager, HandlerMap, MediumBwuHandler, SafeDisconnectionResult,
};
use nearby_rs::frames::{from_bytes, get_frame_type, Exception};
use nearby_rs::mediums::Medium;
use nearby_rs::proto::bandwidth_upgrade_negotiation_frame::UpgradePathInfo;
use nearby_rs::proto::v1_frame::FrameType;

// --- channels ----------------------------------------------------------------

#[test]
fn register_replace_count_and_wifi_lan() {
    let client = ClientProxy::default();
    let mut ecm = EndpointChannelManager::new();
    assert_eq!(ecm.get_connected_endpoints_count(), 0);
    assert!(!ecm.is_wifi_lan_connected());

    ecm.register_channel_for_endpoint(
        &client,
        "Endpoint1",
        FakeEndpointChannel::new(Medium::Bluetooth, "A"),
    );
    assert_eq!(ecm.get_connected_endpoints_count(), 1);
    assert!(!ecm.is_wifi_lan_connected());

    // The channel that was there outlives the swap.
    let stashed = ecm
        .replace_channel_for_endpoint(
            &client,
            "Endpoint1",
            FakeEndpointChannel::new(Medium::WifiLan, "A"),
            false,
        )
        .unwrap();
    assert_eq!(ecm.get_connected_endpoints_count(), 1); // swap, not a new endpoint
    assert!(ecm.is_wifi_lan_connected());
    assert_eq!(stashed.medium(), Medium::Bluetooth);

    assert!(ecm.unregister_channel_for_endpoint(
        "Endpoint1",
        DisconnectionReason::LocalDisconnection,
        SafeDisconnectionResult::SafeDisconnection
    ));
    assert_eq!(ecm.get_connected_endpoints_count(), 0);
}

#[test]
fn unregister_without_a_channel_tells_so() {
    let mut ecm: EndpointChannelManager<FakeEndpointChannel> = EndpointChannelManager::default();
    assert!(!ecm.unregister_channel_for_endpoint(
        "Nobody",
        DisconnectionReason::LocalDisconnection,
        SafeDisconnectionResult::UnsafeDisconnection
    ));
    assert!(ecm.get_channel_for_endpoint("Nobody").is_none());
}

#[test]
fn forgotten_channels_are_not_closed() {
    let client = ClientProxy::default();
    let mut ecm = EndpointChannelManager::new();
    let first = FakeEndpointChannel::new(Medium::Bluetooth, "A");
    let second = FakeEndpointChannel::new(Medium::WifiLan, "A");
    ecm.register_channel_for_endpoint(&client, "Endpoint1", first);
    assert!(ecm.take_dropped().is_empty());
    ecm.register_channel_for_endpoint(&client, "Endpoint1", second);
    assert!(ecm.unregister_channel_for_endpoint(
        "Endpoint1",
        DisconnectionReason::RemoteDisconnection,
        SafeDisconnectionResult::SafeDisconnection
    ));

    let dropped = ecm.take_dropped();
    let mediums: Vec<Medium> = dropped.iter().map(|c| c.medium()).collect();
    assert_eq!(mediums, vec![Medium::Bluetooth, Medium::WifiLan]);
    assert!(dropped.iter().all(|c| !c.is_closed() && !c.wrote_anything()));
    assert!(ecm.take_dropped().is_empty());
}

#[test]
fn channel_records_close_pause_and_write() {
    let mut ch = FakeEndpointChannel::new(Medium::Bluetooth, "A");
    assert!(!ch.is_closed());
    assert!(!ch.wrote_anything());
    assert_eq!(ch.write(b"x"), Exception::Success);
    assert!(ch.wrote_anything());

    ch.pause();
    assert!(EndpointChannel::is_paused(&ch));
    ch.resume();
    assert!(!EndpointChannel::is_paused(&ch));

    ch.set_write_output(Exception::Io);
    assert_eq!(ch.write(b"y"), Exception::Io);

    ch.close_with_reason(DisconnectionReason::Upgraded);
    assert!(ch.is_closed());
    assert_eq!(ch.disconnection_reason(), DisconnectionReason::Upgraded);
}

#[test]
fn channel_gives_what_it_was_set_to_give() {
    let mut ch = FakeEndpointChannel::new(Medium::Bluetooth, "A");
    assert_eq!(ch.read(), Err(Exception::Failed));
    ch.set_read_output(Ok(vec![1, 2]));
    ch.set_write_output(Exception::Io);
    ch.pause();
    ch.resume();
    ch.set_local_endpoint_id("E");
    ch.enable_encryption(());
    ch.disable_encryption();
    ch.close();
    ch.close_with_reason(DisconnectionReason::Shutdown);
    assert_eq!(ch.read(), Ok(vec![1, 2]));
    assert_eq!(ch.read(), Ok(vec![1, 2]));
    assert_eq!(ch.write(b"x"), Exception::Io);
}

#[test]
fn channel_names_itself_after_its_service() {
    let mut ch = FakeEndpointChannel::new(Medium::WebRtc, "Service");
    assert_eq!(ch.name(), "fake-channel-Service");
    assert_eq!(ch.channel_type(), "fake-channel-type");
    assert_eq!(ch.service_id(), "Service");
    assert_eq!(ch.medium(), Medium::WebRtc);
    assert_eq!(ch.local_endpoint_id(), "");
    ch.set_local_endpoint_id("Me");
    assert_eq!(ch.local_endpoint_id(), "Me");
    assert_eq!(ch.read(), Err(Exception::Failed));
    ch.set_read_output(Ok(vec![1, 2]));
    assert_eq!(ch.read(), Ok(vec![1, 2]));
    ch.close();
    assert!(ch.is_closed());
    assert_eq!(ch.disconnection_reason(), DisconnectionReason::UnknownDisconnectionReason);
}

// --- service ids -------------------------------------------------------------

#[test]
fn wraps_only_when_needed() {
    assert_eq!(wrap_initiator_upgrade_service_id("ServiceA"), "ServiceA_UPGRADE");
    assert_eq!(wrap_initiator_upgrade_service_id("ServiceA_UPGRADE"), "ServiceA_UPGRADE");
    assert_eq!(wrap_initiator_upgrade_service_id(""), "");
}

#[test]
fn recognizes_and_unwraps() {
    assert!(is_initiator_upgrade_service_id("ServiceA_UPGRADE"));
    assert!(!is_initiator_upgrade_service_id("ServiceA"));
    assert!(!is_initiator_upgrade_service_id(""));
    assert_eq!(unwrap_initiator_upgrade_service_id("ServiceA_UPGRADE"), "ServiceA");
    assert_eq!(unwrap_initiator_upgrade_service_id("ServiceA"), "ServiceA");
    assert_eq!(unwrap_initiator_upgrade_service_id(""), "");
}

#[test]
fn unwrapping_undoes_wrapping() {
    for id in ["a", "ServiceA", "x_UPGRADEy", "caf\u{e9}"] {
        let wrapped = wrap_initiator_upgrade_service_id(id);
        assert!(is_initiator_upgrade_service_id(&wrapped));
        assert_eq!(unwrap_initiator_upgrade_service_id(&wrapped), id);
    }
}

// --- handlers ----------------------------------------------------------------

/// A handler of a medium that records what it is asked.
#[derive(Default)]
struct RecordingHandler {
    initialize_calls: Vec<(String, String)>,
    revert_calls: Vec<String>,
    /// The medium cannot be set up for this endpoint.
    fail_for: Option<String>,
}

impl MediumBwuHandler<FakeEndpointChannel> for RecordingHandler {
    fn handle_initialize_upgraded_medium_for_endpoint(
        &mut self,
        _client: &ClientProxy,
        upgrade_service_id: &str,
        endpoint_id: &str,
    ) -> Vec<u8> {
        self.initialize_calls.push((upgrade_service_id.to_string(), endpoint_id.to_string()));
        if self.fail_for.as_deref() == Some(endpoint_id) {
            return Vec::new();
        }
        vec![1]
    }

    fn handle_revert_initiator_state_for_service(&mut self, upgrade_service_id: &str) {
        self.revert_calls.push(upgrade_service_id.to_string());
    }

    fn create_upgraded_endpoint_channel(
        &mut self,
        _client: &ClientProxy,
        _service_id: &str,
        _endpoint_id: &str,
        _upgrade_path_info: &UpgradePathInfo,
    ) -> Option<FakeEndpointChannel> {
        None
    }

    fn get_upgrade_medium(&self) -> Medium {
        Medium::WebRtc
    }

    fn on_endpoint_disconnect(&mut self, _client: &ClientProxy, _endpoint_id: &str) {}
}

#[test]
fn initialize_wraps_service_id_and_tracks_endpoints() {
    let client = ClientProxy::default();
    let mut handler = BaseBwuHandler::new(RecordingHandler::default());

    let frame = handler.initialize_upgraded_medium_for_endpoint(&client, "ServiceA", "Endpoint1");
    assert_eq!(frame, vec![1]);
    // The handler of the medium is asked with the wrapped id.
    assert_eq!(
        handler.inner().initialize_calls,
        vec![("ServiceA_UPGRADE".to_string(), "Endpoint1".to_string())]
    );
}

#[test]
fn empty_initialize_frame_is_not_tracked() {
    let client = ClientProxy::default();
    let mut handler = BaseBwuHandler::new(RecordingHandler {
        fail_for: Some("Endpoint1".to_string()),
        ..Default::default()
    });
    let frame = handler.initialize_upgraded_medium_for_endpoint(&client, "ServiceA", "Endpoint1");
    assert!(frame.is_empty());
    handler.revert_initiator_state_for_endpoint("ServiceA_UPGRADE", "Endpoint1");
    assert!(handler.inner().revert_calls.is_empty());
}

#[test]
fn revert_per_endpoint_fires_only_on_last() {
    let client = ClientProxy::default();
    let mut handler = BaseBwuHandler::new(RecordingHandler::default());
    handler.initialize_upgraded_medium_for_endpoint(&client, "ServiceA", "Endpoint1");
    handler.initialize_upgraded_medium_for_endpoint(&client, "ServiceA", "Endpoint2");

    handler.revert_initiator_state_for_endpoint("ServiceA_UPGRADE", "Endpoint1");
    assert!(handler.inner().revert_calls.is_empty());
    handler.revert_initiator_state_for_endpoint("ServiceA_UPGRADE", "Endpoint2");
    assert_eq!(handler.inner().revert_calls, vec!["ServiceA_UPGRADE".to_string()]);
}

#[test]
fn reverted_endpoint_leaves_no_trace() {
    let client = ClientProxy::default();
    let mut handler = BaseBwuHandler::new(RecordingHandler::default());
    handler.initialize_upgraded_medium_for_endpoint(&client, "ServiceA", "Endpoint1");
    handler.initialize_upgraded_medium_for_endpoint(&client, "ServiceA", "Endpoint2");
    handler.revert_initiator_state_for_endpoint("ServiceA_UPGRADE", "Endpoint2");
    // Once more changes nothing: Endpoint1 is still there.
    handler.revert_initiator_state_for_endpoint("ServiceA_UPGRADE", "Endpoint2");
    assert!(handler.inner().revert_calls.is_empty());

    handler.revert_initiator_state_for_endpoint("ServiceA_UPGRADE", "Endpoint1");
    // With none left, neither a revert of an endpoint nor of everything has anything to do.
    handler.revert_initiator_state_for_endpoint("ServiceA_UPGRADE", "Endpoint1");
    handler.revert_initiator_state();
    assert_eq!(handler.inner().revert_calls, vec!["ServiceA_UPGRADE".to_string()]);
}

#[test]
fn revert_ignores_unwrapped_service_id() {
    let client = ClientProxy::default();
    let mut handler = BaseBwuHandler::new(RecordingHandler::default());
    handler.initialize_upgraded_medium_for_endpoint(&client, "ServiceA", "Endpoint1");
    handler.revert_initiator_state_for_endpoint("ServiceA", "Endpoint1");
    assert!(handler.inner().revert_calls.is_empty());
}

#[test]
fn revert_all_reverts_each_service_once() {
    let client = ClientProxy::default();
    let mut handler = BaseBwuHandler::new(RecordingHandler::default());
    handler.initialize_upgraded_medium_for_endpoint(&client, "ServiceA", "Endpoint1");
    handler.initialize_upgraded_medium_for_endpoint(&client, "ServiceB", "Endpoint2");
    handler.revert_initiator_state();
    let mut reverts = handler.inner().revert_calls.clone();
    reverts.sort();
    assert_eq!(reverts, vec!["ServiceA_UPGRADE", "ServiceB_UPGRADE"]);
}

#[test]
fn responder_revert_calls_handler_with_raw_id() {
    let mut handler = BaseBwuHandler::new(RecordingHandler::default());
    handler.revert_responder_state("ServiceA");
    assert_eq!(handler.inner().revert_calls, vec!["ServiceA".to_string()]);
}

#[test]
fn same_calls_reach_the_medium_alike() {
    let client = ClientProxy::default();
    let run = || {
        let mut handler = BaseBwuHandler::new(RecordingHandler {
            fail_for: Some("Endpoint3".to_string()),
            ..Default::default()
        });
        handler.initialize_upgraded_medium_for_endpoint(&client, "ServiceA", "Endpoint1");
        handler.initialize_upgraded_medium_for_endpoint(&client, "ServiceB", "Endpoint2");
        handler.initialize_upgraded_medium_for_endpoint(&client, "ServiceB", "Endpoint3");
        handler.revert_initiator_state_for_endpoint("ServiceB_UPGRADE", "Endpoint2");
        handler.revert_responder_state("ServiceC");
        handler.revert_initiator_state();
        handler
    };
    let (first, second) = (run(), run());
    assert_eq!(first.inner().initialize_calls, second.inner().initialize_calls);
    assert_eq!(first.inner().revert_calls, second.inner().revert_calls);
    assert_eq!(first.inner().initialize_calls.len(), 3);
    assert_eq!(
        first.inner().revert_calls,
        vec!["ServiceB_UPGRADE", "ServiceC", "ServiceA_UPGRADE"]
    );
}

#[test]
fn base_handler_hands_the_rest_through() {
    let client = ClientProxy::new(7, "Local");
    let mut handler =
        BaseBwuHandler::new(FakeBwuHandler::new(Medium::WifiLan, FakeBwuHandler::records()));
    assert_eq!(handler.get_upgrade_medium(), Medium::WifiLan);
    let channel = handler
        .create_upgraded_endpoint_channel(&client, "ServiceA", "E1", &UpgradePathInfo::default())
        .unwrap();
    assert_eq!(channel.medium(), Medium::WifiLan);
    handler.on_endpoint_disconnect(&client, "E1");
    let records = handler.inner_mut().recorded();
    assert_eq!(records.create_calls[0].client_id, 7);
    assert_eq!(records.disconnect_calls[0].service_id, None);
    assert_eq!(records.disconnect_calls[0].endpoint_id.as_deref(), Some("E1"));
}

#[test]
fn handler_records_and_emits_valid_path_available_frames() {
    let client = ClientProxy::default();
    for medium in [
        Medium::Bluetooth,
        Medium::WifiLan,
        Medium::WebRtc,
        Medium::WifiHotspot,
        Medium::WifiDirect,
    ] {
        let mut handler = FakeBwuHandler::new(medium, FakeBwuHandler::records());
        let bytes = handler.handle_initialize_upgraded_medium_for_endpoint(
            &client,
            "ServiceA_UPGRADE",
            "Endpoint1",
        );
        assert!(!bytes.is_empty(), "medium {medium:?} should emit a frame");
        let frame = from_bytes(&bytes).expect("path-available frame should parse");
        assert_eq!(get_frame_type(&frame), FrameType::BandwidthUpgradeNegotiation);
        assert_eq!(handler.recorded().handle_initialize_calls.len(), 1);
    }
}

#[test]
fn handler_offers_nothing_for_other_mediums() {
    let client = ClientProxy::default();
    let mut handler = FakeBwuHandler::new(Medium::Nfc, FakeBwuHandler::records());
    assert!(handler
        .handle_initialize_upgraded_medium_for_endpoint(&client, "S_UPGRADE", "E1")
        .is_empty());
}

// --- maps and the client -----------------------------------------------------

#[test]
fn handler_map_holds_one_handler_for_each_medium() {
    let mut map = HandlerMap::new();
    assert!(!map.contains_key(Medium::WifiLan));
    map.insert(Medium::WifiLan, 1);
    map.insert(Medium::WebRtc, 2);
    map.insert(Medium::WifiLan, 3);
    assert_eq!(map.get(Medium::WifiLan), Some(&3));
    assert_eq!(map.remove(Medium::WebRtc), Some(2));
    assert_eq!(map.remove(Medium::WebRtc), None);
}

#[test]
fn str_map_is_a_map() {
    let mut map: StrMap<u32> = StrMap::new();
    assert_eq!(map.insert("a", 1), None);
    assert_eq!(map.insert("b", 2), None);
    assert_eq!(map.insert("a", 3), Some(1));
    assert_eq!(map.len(), 2);
    assert_eq!(map.get("a"), Some(&3));
    assert_eq!(map.remove("a"), Some(3));
    assert!(!map.contains_key("a"));
    map.clear();
    assert_eq!(map.len(), 0);
}

#[test]
fn client_forgets_with_the_connection() {
    let mut client = ClientProxy::default();
    // One side alone, an initiation and an established connection are no acceptance.
    client.remote_endpoint_accepted_connection("E1");
    client.on_connection_initiated("E1", true, false);
    client.on_connection_accepted("E1");
    assert!(!client.is_connection_accepted("E1"));
    client.local_endpoint_accepted_connection("E1");
    assert!(client.is_connection_accepted("E1"));
    assert!(!client.is_connected_to_endpoint("E"));

    // The latest initiation counts.
    assert!(client.is_incoming_connection("E1"));
    client.on_connection_initiated("E1", false, false);
    assert!(!client.is_incoming_connection("E1"));
    client.on_connection_initiated("E1", true, false);

    client.on_disconnected("E1");
    assert!(!client.is_connection_accepted("E1"));
    assert!(!client.is_connected_to_endpoint("E1"));
    assert!(!client.is_incoming_connection("E1"));
    // Acceptance alone does not connect.
    client.local_endpoint_accepted_connection("E1");
    client.remote_endpoint_accepted_connection("E1");
    assert!(client.is_connection_accepted("E1"));
    assert!(!client.is_connected_to_endpoint("E1"));
}

#[test]
fn client_knows_what_it_was_told() {
    let mut client = ClientProxy::new(9, "Me");
    assert_eq!(client.client_id(), 9);
    assert_eq!(client.local_endpoint_id(), "Me");
    assert_eq!(client.last_local_endpoint_id(), "Me");
    assert!(!client.is_connected_to_endpoint("E1"));
    client.on_connection_initiated("E1", true, true);
    assert!(client.is_incoming_connection("E1"));
    assert!(client.auto_upgrade_bandwidth("E1"));
    assert!(!client.is_connected_to_endpoint("E1"));
    client.local_endpoint_accepted_connection("E1");
    assert!(!client.is_connection_accepted("E1"));
    client.remote_endpoint_accepted_connection("E1");
    assert!(client.is_connection_accepted("E1"));
    client.set_upgrade_mediums("E1", vec![Medium::WifiLan]);
    assert_eq!(client.upgrade_mediums("E1"), vec![Medium::WifiLan]);
    client.on_connection_accepted("E1");
    assert!(client.is_connected_to_endpoint("E1"));
    client.on_bandwidth_changed("E1", Medium::WifiLan);
    assert_eq!(client.copy_events(), vec![("E1".to_string(), Medium::WifiLan)]);
    client.on_disconnected("E1");
    assert!(!client.is_connected_to_endpoint("E1"));
    assert!(client.upgrade_mediums("E1").is_empty());
    assert_eq!(client.bandwidth_changed_events().len(), 1);
}

use nearby_rs::bwu::testing::{FakeBwuHandler, FakeEndpointChannel};
use nearby_rs::bwu::{
    BaseBwuHandler, BwuConfig, BwuManager, ClientProxy, DisconnectionReason,
    EndpointChannelManager, HandlerMap,
};
use nearby_rs::frames::{for_bwu_failure, from_bytes};
use nearby_rs::mediums::Medium;
use nearby_rs::proto::bandwidth_upgrade_negotiation_frame as bwu_pb;
use nearby_rs::proto::bandwidth_upgrade_negotiation_frame::upgrade_path_info::Medium as M;

const SERVICE_A: &str = "ServiceA";
const E1: &str = "Endpoint1";

/// Delays are in milliseconds.
fn secs(n: u64) -> u64 {
    n * 1000
}

struct Harness {
    client: ClientProxy,
    bwu: BwuManager<FakeEndpointChannel, BaseBwuHandler<FakeBwuHandler>>,
}

impl Harness {
    fn new(mediums: &[Medium], config: BwuConfig) -> Self {
        let mut handlers = HandlerMap::new();
        for &m in mediums {
            handlers
                .insert(m, BaseBwuHandler::new(FakeBwuHandler::new(m, FakeBwuHandler::records())));
        }
        let mut bwu = BwuManager::new(EndpointChannelManager::new(), handlers, config);
        bwu.make_single_threaded_for_testing();
        Self { client: ClientProxy::new(0, "LocalEndpoint"), bwu }
    }

    /// Registers an accepted, connected endpoint channel.
    fn connect(&mut self, endpoint_id: &str, channel_medium: Medium, upgrade_mediums: &[Medium]) {
        self.client.on_connection_initiated(endpoint_id, false, false);
        self.client.on_connection_accepted(endpoint_id);
        self.client.set_upgrade_mediums(endpoint_id, upgrade_mediums.to_vec());
        let channel = FakeEndpointChannel::new(channel_medium, SERVICE_A);
        self.bwu.register_channel_for_endpoint(&self.client, endpoint_id, channel);
    }

    /// The peer could not reach `tried_medium`.
    fn feed_failure(&mut self, endpoint_id: &str, tried_medium: Medium) {
        let info = bwu_pb::UpgradePathInfo {
            medium: Some(medium_to_upi(tried_medium)),
            ..Default::default()
        };
        let bytes = for_bwu_failure(info);
        let frame = from_bytes(&bytes).expect("failure frame should parse");
        self.bwu.on_incoming_frame(&frame, endpoint_id, &mut self.client, Medium::Bluetooth);
    }

    fn initialize_calls(&self, medium: Medium) -> usize {
        self.bwu.handler(medium).unwrap().inner().recorded().handle_initialize_calls.len()
    }

    fn last_initialize_service_id(&self, medium: Medium) -> Option<String> {
        self.bwu
            .handler(medium)
            .unwrap()
            .inner()
            .recorded()
            .handle_initialize_calls
            .last()
            .and_then(|c| c.service_id.clone())
    }
}

fn medium_to_upi(medium: Medium) -> i32 {
    let m = match medium {
        Medium::WifiLan => M::WifiLan,
        Medium::WifiDirect => M::WifiDirect,
        Medium::WifiHotspot => M::WifiHotspot,
        Medium::WebRtc => M::WebRtc,
        Medium::Bluetooth => M::Bluetooth,
        _ => M::UnknownMedium,
    };
    m.value()
}

#[test]
fn first_retry_uses_initial_delay_exp_default() {
    let h = Harness::new(&[], BwuConfig::default());
    assert_eq!(h.bwu.calculate_next_retry_delay("fresh"), secs(3));
}

#[test]
fn exp_backoff_doubles_and_caps_at_max() {
    // There is never a medium to upgrade to, so every retry sets the next one.
    let mut h = Harness::new(&[], BwuConfig::default());
    h.connect(E1, Medium::Bluetooth, &[]);

    h.feed_failure(E1, Medium::WebRtc);
    assert_eq!(h.bwu.pending_retry_delay(E1), Some(secs(3)));

    let mut seen = Vec::new();
    for _ in 0..8 {
        h.bwu.fire_retry_alarm(&mut h.client, E1);
        seen.push(h.bwu.pending_retry_delay(E1).unwrap());
    }
    assert_eq!(
        seen,
        [
            secs(6),
            secs(12),
            secs(24),
            secs(48),
            secs(96),
            secs(192),
            secs(300),
            secs(300),
        ]
    );
}

#[test]
fn linear_backoff_grows_by_initial_and_caps() {
    let config = BwuConfig { use_exp_backoff_in_bwu_retry: false, ..Default::default() };
    let mut h = Harness::new(&[], config);
    h.connect(E1, Medium::Bluetooth, &[]);

    h.feed_failure(E1, Medium::WebRtc);
    assert_eq!(h.bwu.pending_retry_delay(E1), Some(secs(5)));
    h.bwu.fire_retry_alarm(&mut h.client, E1);
    assert_eq!(h.bwu.pending_retry_delay(E1), Some(secs(10)));
    h.bwu.fire_retry_alarm(&mut h.client, E1);
    assert_eq!(h.bwu.pending_retry_delay(E1), Some(secs(10)));
}

#[test]
fn failure_tries_next_untried_medium() {
    let mut h = Harness::new(&[Medium::WebRtc, Medium::WifiDirect], BwuConfig::default());
    h.connect(E1, Medium::Bluetooth, &[Medium::WebRtc, Medium::WifiDirect]);

    h.bwu.initiate_bwu_for_endpoint(&mut h.client, E1, Medium::WebRtc);
    assert_eq!(h.initialize_calls(Medium::WebRtc), 1);

    h.feed_failure(E1, Medium::WebRtc);

    // The next untried medium was offered.
    assert_eq!(h.initialize_calls(Medium::WifiDirect), 1);
    assert_eq!(
        h.last_initialize_service_id(Medium::WifiDirect).as_deref(),
        Some("ServiceA_UPGRADE")
    );
    assert!(h.bwu.is_upgrade_ongoing(E1));
    assert_eq!(h.bwu.pending_retry_delay(E1), None);
}

#[test]
fn failure_with_no_untried_medium_schedules_retry() {
    let mut h = Harness::new(&[Medium::WebRtc], BwuConfig::default());
    h.connect(E1, Medium::Bluetooth, &[]);

    h.feed_failure(E1, Medium::WebRtc);

    assert_eq!(h.bwu.pending_retry_delay(E1), Some(secs(3)));
    assert!(!h.bwu.is_upgrade_ongoing(E1));
}

#[test]
fn no_retry_scheduled_when_already_on_wifi_lan() {
    let mut h = Harness::new(&[Medium::WebRtc], BwuConfig::default());
    h.connect(E1, Medium::WifiLan, &[]);

    h.feed_failure(E1, Medium::WebRtc);

    assert_eq!(h.bwu.pending_retry_delay(E1), None);
}

#[test]
fn cancel_keeps_backoff_so_a_new_initiate_resumes_it() {
    let mut h = Harness::new(&[Medium::WebRtc], BwuConfig::default());
    h.connect(E1, Medium::Bluetooth, &[]);

    h.feed_failure(E1, Medium::WebRtc);
    assert_eq!(h.bwu.pending_retry_delay(E1), Some(secs(3)));

    // An offer cancels the retry that waits...
    h.bwu.initiate_bwu_for_endpoint(&mut h.client, E1, Medium::WebRtc);
    assert_eq!(h.bwu.pending_retry_delay(E1), None);

    // ...but the next delay goes on from the last one.
    h.feed_failure(E1, Medium::WebRtc);
    assert_eq!(h.bwu.pending_retry_delay(E1), Some(secs(6)));
}

#[test]
fn disconnect_resets_backoff_and_cancels_alarm() {
    let mut h = Harness::new(&[Medium::WebRtc], BwuConfig::default());
    h.connect(E1, Medium::Bluetooth, &[]);

    h.feed_failure(E1, Medium::WebRtc);
    assert_eq!(h.bwu.pending_retry_delay(E1), Some(secs(3)));

    h.bwu.on_endpoint_disconnect(
        &mut h.client,
        SERVICE_A,
        E1,
        DisconnectionReason::LocalDisconnection,
    );
    assert_eq!(h.bwu.pending_retry_delay(E1), None);

    h.feed_failure(E1, Medium::WebRtc);
    assert_eq!(h.bwu.pending_retry_delay(E1), Some(secs(3)));
}

#[test]
fn fire_with_no_pending_alarm_is_a_noop() {
    let mut h = Harness::new(&[], BwuConfig::default());
    h.bwu.fire_retry_alarm(&mut h.client, "Nobody");
    assert_eq!(h.bwu.pending_retry_delay("Nobody"), None);
}

#[test]
fn fire_after_disconnect_does_not_reschedule() {
    let mut h = Harness::new(&[Medium::WebRtc], BwuConfig::default());
    h.connect(E1, Medium::Bluetooth, &[]);
    h.feed_failure(E1, Medium::WebRtc);
    assert_eq!(h.bwu.pending_retry_delay(E1), Some(secs(3)));

    // The endpoint is gone before the retry is due.
    h.client.on_disconnected(E1);
    h.bwu.fire_retry_alarm(&mut h.client, E1);

    assert_eq!(h.bwu.pending_retry_delay(E1), None);
}

#[test]
fn shutdown_cancels_all_retry_alarms() {
    let mut h = Harness::new(&[Medium::WebRtc], BwuConfig::default());
    h.connect(E1, Medium::Bluetooth, &[]);
    h.feed_failure(E1, Medium::WebRtc);
    assert_eq!(h.bwu.pending_retry_delay(E1), Some(secs(3)));

    h.bwu.shutdown();
    assert_eq!(h.bwu.pending_retry_delay(E1), None);
}

#[test]
fn a_medium_without_a_handler_is_passed_over() {
    let mut h = Harness::new(&[Medium::WebRtc, Medium::WifiLan], BwuConfig::default());
    h.connect(
        E1,
        Medium::Bluetooth,
        &[Medium::WebRtc, Medium::WifiAware, Medium::WifiLan],
    );
    h.feed_failure(E1, Medium::WebRtc);
    assert_eq!(h.initialize_calls(Medium::WifiLan), 1);
    assert_eq!(h.initialize_calls(Medium::WebRtc), 0);
    assert!(h.bwu.is_upgrade_ongoing(E1));
}

#[test]
fn mediums_that_cannot_be_set_up_are_tried_in_turn() {
    // The handler of these mediums offers nothing.
    let mut h = Harness::new(&[Medium::Ble, Medium::Usb, Medium::WifiLan], BwuConfig::default());
    h.connect(E1, Medium::Bluetooth, &[Medium::Ble, Medium::Usb, Medium::WifiLan]);
    h.bwu.initiate_bwu_for_endpoint(&mut h.client, E1, Medium::Ble);
    assert_eq!(h.initialize_calls(Medium::Ble), 1);
    assert_eq!(h.initialize_calls(Medium::Usb), 1);
    assert_eq!(h.initialize_calls(Medium::WifiLan), 1);
    assert!(h.bwu.is_upgrade_ongoing(E1));
    assert_eq!(h.bwu.pending_retry_delay(E1), None);
}

#[test]
fn retry_starts_over_with_all_mediums() {
    let mut h = Harness::new(&[Medium::WebRtc], BwuConfig::default());
    h.connect(E1, Medium::Bluetooth, &[Medium::WebRtc]);
    h.bwu.initiate_bwu_for_endpoint(&mut h.client, E1, Medium::WebRtc);
    h.feed_failure(E1, Medium::WebRtc);
    assert_eq!(h.bwu.pending_retry_delays(), vec![(E1.to_string(), secs(3))]);
    h.bwu.fire_retry_alarm(&mut h.client, E1);
    assert_eq!(h.initialize_calls(Medium::WebRtc), 2);
    assert!(h.bwu.is_upgrade_ongoing(E1));
    assert!(h.bwu.pending_retry_delays().is_empty());
}

#[test]
fn delays_do_not_overflow() {
    let config = BwuConfig {
        exp_backoff_initial_delay_millis: u64::MAX - 1,
        exp_backoff_max_delay_millis: u64::MAX,
        ..Default::default()
    };
    let mut h = Harness::new(&[], config);
    h.connect(E1, Medium::Bluetooth, &[]);
    h.feed_failure(E1, Medium::WebRtc);
    assert_eq!(h.bwu.pending_retry_delay(E1), Some(u64::MAX - 1));
    assert_eq!(h.bwu.calculate_next_retry_delay(E1), u64::MAX);
}

use nearby_rs::bwu::testing::{FakeBwuHandler, FakeEndpointChannel};
use nearby_rs::bwu::{
    BaseBwuHandler, BwuActor, BwuCommand, BwuConfig, BwuReply, DisconnectionReason,
    EndpointChannel, HandlerMap, IncomingSocketConnection, SafeDisconnectionResult,
};
use nearby_rs::frames::{
    for_bwu_failure, for_bwu_introduction, for_bwu_last_write, for_bwu_safe_to_close, from_bytes,
};
use nearby_rs::mediums::Medium;
use nearby_rs::proto as pb;
use nearby_rs::proto::bandwidth_upgrade_negotiation_frame as bwu_pb;
use nearby_rs::proto::bandwidth_upgrade_negotiation_frame::upgrade_path_info::Medium as M;

const SERVICE_A: &str = "ServiceA";
const E1: &str = "Endpoint1";

type Actor = BwuActor<FakeEndpointChannel, BaseBwuHandler<FakeBwuHandler>>;

/// Times are in milliseconds.
fn secs(n: u64) -> u64 {
    n * 1000
}

fn actor(mediums: &[Medium]) -> Actor {
    let mut handlers = HandlerMap::new();
    for &m in mediums {
        handlers.insert(m, BaseBwuHandler::new(FakeBwuHandler::new(m, FakeBwuHandler::records())));
    }
    BwuActor::new(handlers, BwuConfig::default(), "Local")
}

fn run(actor: &mut Actor, cmd: BwuCommand<FakeEndpointChannel>) {
    assert!(matches!(actor.apply(cmd, 0), BwuReply::Done));
}

fn connect(actor: &mut Actor, mediums: &[Medium]) {
    let endpoint_id = || E1.to_string();
    run(
        actor,
        BwuCommand::ConnectionInitiated {
            endpoint_id: endpoint_id(),
            is_incoming: false,
            auto_upgrade_bandwidth: false,
        },
    );
    run(actor, BwuCommand::ConnectionAccepted { endpoint_id: endpoint_id() });
    run(
        actor,
        BwuCommand::RegisterChannel {
            endpoint_id: endpoint_id(),
            channel: FakeEndpointChannel::new(Medium::Bluetooth, SERVICE_A),
        },
    );
    run(
        actor,
        BwuCommand::SetUpgradeMediums { endpoint_id: endpoint_id(), mediums: mediums.to_vec() },
    );
}

fn failure_frame(medium: M) -> pb::OfflineFrame {
    let info = bwu_pb::UpgradePathInfo { medium: Some(medium.value()), ..Default::default() };
    from_bytes(&for_bwu_failure(info)).expect("failure frame should parse")
}

fn incoming(frame: pb::OfflineFrame) -> BwuCommand<FakeEndpointChannel> {
    BwuCommand::IncomingFrame { frame, endpoint_id: E1.to_string(), medium: Medium::Bluetooth }
}

fn pending(actor: &mut Actor, now: u64) -> Option<u64> {
    match actor.apply(BwuCommand::PendingRetryDelay { endpoint_id: E1.to_string() }, now) {
        BwuReply::RetryDelay(delay) => delay,
        _ => panic!("expected a delay"),
    }
}

fn ongoing(actor: &mut Actor) -> bool {
    match actor.apply(BwuCommand::IsUpgradeOngoing { endpoint_id: E1.to_string() }, 0) {
        BwuReply::UpgradeOngoing(yes) => yes,
        _ => panic!("expected a flag"),
    }
}

fn initialize_calls(actor: &Actor, medium: Medium) -> usize {
    actor.manager().handler(medium).unwrap().inner().recorded().handle_initialize_calls.len()
}

#[test]
fn retry_is_due_and_backs_off() {
    let mut a = actor(&[Medium::WebRtc]);
    connect(&mut a, &[]);
    assert_eq!(a.next_deadline(), None);
    run(&mut a, incoming(failure_frame(M::WebRtc)));

    assert_eq!(pending(&mut a, 0), Some(secs(3)));
    assert_eq!(a.next_deadline(), Some(secs(3)));

    // Too early: nothing is fired, and the time at which it is due stays.
    a.fire_due_retries(secs(2));
    assert_eq!(pending(&mut a, secs(2)), Some(secs(3)));
    assert_eq!(a.next_deadline(), Some(secs(3)));

    a.fire_due_retries(secs(3));
    assert_eq!(pending(&mut a, secs(3)), Some(secs(6)));
    assert_eq!(a.next_deadline(), Some(secs(9)));

    a.fire_due_retries(secs(9));
    assert_eq!(pending(&mut a, secs(9)), Some(secs(12)));
    assert_eq!(initialize_calls(&a, Medium::WebRtc), 0);
}

#[test]
fn full_handshake() {
    let mut a = actor(&[Medium::WebRtc]);
    connect(&mut a, &[]);
    run(&mut a, BwuCommand::InitiateBwu { endpoint_id: E1.to_string(), medium: Medium::WebRtc });
    assert!(ongoing(&mut a));

    let call = a.manager().handler(Medium::WebRtc).unwrap().inner().recorded()
        .handle_initialize_calls[0]
        .clone();
    let mut channel = FakeEndpointChannel::new(Medium::WebRtc, &call.service_id.unwrap());
    channel.set_read_output(Ok(for_bwu_introduction(&call.endpoint_id.unwrap(), "", false)));
    run(
        &mut a,
        BwuCommand::IncomingConnection { connection: IncomingSocketConnection { channel } },
    );
    run(&mut a, incoming(from_bytes(&for_bwu_last_write()).unwrap()));
    run(&mut a, incoming(from_bytes(&for_bwu_safe_to_close()).unwrap()));

    match a.apply(BwuCommand::BandwidthChangedEvents, 0) {
        BwuReply::Events(events) => assert_eq!(events, vec![(E1.to_string(), Medium::WebRtc)]),
        _ => panic!("expected events"),
    }
    let prior = a.manager().retired().last().unwrap();
    assert!(prior.is_closed());
    assert_eq!(prior.disconnection_reason(), DisconnectionReason::Upgraded);
    let upgraded = a.get_upgraded_channel(E1).unwrap();
    assert_eq!(upgraded.medium(), Medium::WebRtc);
    assert!(!upgraded.is_paused());
    assert!(a.get_upgraded_channel("Nobody").is_none());
}

#[test]
fn failure_offers_the_next_medium() {
    let mut a = actor(&[Medium::WebRtc, Medium::WifiDirect]);
    connect(&mut a, &[Medium::WebRtc, Medium::WifiDirect]);
    run(&mut a, BwuCommand::InitiateBwu { endpoint_id: E1.to_string(), medium: Medium::WebRtc });
    assert_eq!(initialize_calls(&a, Medium::WebRtc), 1);
    run(&mut a, incoming(failure_frame(M::WebRtc)));
    assert!(ongoing(&mut a));
    assert_eq!(initialize_calls(&a, Medium::WifiDirect), 1);
    assert_eq!(pending(&mut a, 0), None);
    assert_eq!(a.next_deadline(), None);
}

#[test]
fn a_new_offer_drops_the_timer() {
    let mut a = actor(&[Medium::WebRtc]);
    connect(&mut a, &[]);
    run(&mut a, incoming(failure_frame(M::WebRtc)));
    assert_eq!(a.next_deadline(), Some(secs(3)));

    run(&mut a, BwuCommand::InitiateBwu { endpoint_id: E1.to_string(), medium: Medium::WebRtc });
    assert_eq!(pending(&mut a, 0), None);
    assert_eq!(a.next_deadline(), None);
    assert!(ongoing(&mut a));

    a.fire_due_retries(secs(30));
    assert_eq!(pending(&mut a, secs(30)), None);
}

#[test]
fn shutdown_is_the_last_command() {
    let mut a = actor(&[Medium::WebRtc]);
    connect(&mut a, &[]);
    run(&mut a, BwuCommand::InitiateBwu { endpoint_id: E1.to_string(), medium: Medium::WebRtc });
    assert!(matches!(a.apply(BwuCommand::Shutdown, 0), BwuReply::Stopped));
    assert!(!ongoing(&mut a));
    let records = a.manager().handler(Medium::WebRtc).unwrap().inner().recorded();
    assert_eq!(records.handle_revert_calls.len(), 1);
}

#[test]
fn disconnect_forgets_the_endpoint() {
    let mut a = actor(&[Medium::WebRtc]);
    connect(&mut a, &[]);
    run(&mut a, incoming(failure_frame(M::WebRtc)));
    run(&mut a, BwuCommand::LocalEndpointAccepted { endpoint_id: E1.to_string() });
    run(&mut a, BwuCommand::RemoteEndpointAccepted { endpoint_id: E1.to_string() });
    run(
        &mut a,
        BwuCommand::UnregisterChannel {
            endpoint_id: E1.to_string(),
            reason: DisconnectionReason::LocalDisconnection,
            result: SafeDisconnectionResult::SafeDisconnection,
        },
    );
    run(
        &mut a,
        BwuCommand::EndpointDisconnect {
            service_id: SERVICE_A.to_string(),
            endpoint_id: E1.to_string(),
            reason: DisconnectionReason::LocalDisconnection,
        },
    );
    run(&mut a, BwuCommand::Disconnected { endpoint_id: E1.to_string() });
    assert_eq!(a.next_deadline(), None);
    assert!(a.get_upgraded_channel(E1).is_none());
}

#[test]
fn deadlines_do_not_overflow() {
    let mut a = actor(&[]);
    connect(&mut a, &[]);
    a.apply(incoming(failure_frame(M::WebRtc)), u64::MAX - 1);
    assert_eq!(a.next_deadline(), Some(u64::MAX));
}

//! Channels and handlers that do what they are told and tell what was done to them.

use vstd::prelude::*;

use crate::bwu::channel;
use crate::bwu::channel::{
    ChannelEvent, ChannelView, DisconnectionReason, EndpointChannel, Replies,
};
use crate::bwu::client::{ClientProxy, ClientView};
use crate::bwu::exchange;
use crate::bwu::handler;
use crate::bwu::handler::{
    BwuHandler, HandlerReplies, IncomingSocketConnection, MediumBwuHandler, MediumCall,
};
use crate::bwu::laws;
use crate::bwu::manager::BwuManager;
use crate::bwu::model::{BwuView, Outcomes};
use crate::frame_laws;
use crate::frames;
use crate::frames::{
    for_bwu_bluetooth_path_available, for_bwu_introduction, for_bwu_webrtc_path_available,
    for_bwu_wifi_direct_path_available, for_bwu_wifi_hotspot_path_available,
    for_bwu_wifi_lan_path_available, Exception, ServiceAddress,
};
use crate::mediums::Medium;
use crate::proto as pb;
use crate::proto::bandwidth_upgrade_negotiation_frame as bwu;
use crate::proto::bandwidth_upgrade_negotiation_frame::upgrade_path_info as upi;
use crate::text;
use crate::wire;

verus! {

// ---------------------------------------------------------------------------
// FakeEndpointChannel
// ---------------------------------------------------------------------------

/// A channel whose reads and writes give what they were set to give.
pub struct FakeEndpointChannel {
    medium: Medium,
    service_id: String,
    read_output: Result<Vec<u8>, Exception>,
    write_output: Exception,
    is_closed: bool,
    disconnection_reason: DisconnectionReason,
    is_paused: bool,
    local_endpoint_id: String,
    wrote_anything: bool,
    history: Ghost<Seq<ChannelEvent>>,
}

/// A [`FakeEndpointChannel`] that was not used yet: a read fails, and a write goes out.
pub open spec fn fake_channel(medium: Medium, service_id: Seq<char>) -> ChannelView {
    ChannelView {
        medium,
        service_id,
        name: "fake-channel-"@ + service_id,
        replies: Replies {
            read: Some(Err(Exception::Failed)),
            write: Some(Exception::Success),
        },
        history: Seq::empty(),
    }
}

impl FakeEndpointChannel {
    #[verifier::type_invariant]
    spec fn inv(&self) -> bool {
        &&& self.is_closed == channel::was_closed(self.history@)
        &&& self.disconnection_reason == channel::last_reason(self.history@)
        &&& self.is_paused == channel::was_paused(self.history@)
        &&& self.local_endpoint_id@ == channel::last_local_endpoint_id(self.history@)
        &&& self.wrote_anything == channel::was_written(self.history@)
    }

    /// What a read gives.
    pub open spec fn next_read(&self) -> Result<Seq<u8>, Exception> {
        self.channel().replies.read->0
    }

    /// What a write gives.
    pub open spec fn next_write(&self) -> Exception {
        self.channel().replies.write->0
    }

    pub fn new(medium: Medium, service_id: &str) -> (r: FakeEndpointChannel)
        ensures
            r.channel() == fake_channel(medium, service_id@),
    {
        FakeEndpointChannel {
            medium,
            service_id: service_id.to_owned(),
            read_output: Err(Exception::Failed),
            write_output: Exception::Success,
            is_closed: false,
            disconnection_reason: DisconnectionReason::UnknownDisconnectionReason,
            is_paused: false,
            local_endpoint_id: String::new(),
            wrote_anything: false,
            history: Ghost(Seq::empty()),
        }
    }

    pub fn set_read_output(&mut self, output: Result<Vec<u8>, Exception>)
        ensures
            final(self).channel() == old(self).channel().with_read(frames::result_view(output)),
    {
        proof {
            use_type_invariant(&*self);
        }
        self.read_output = output;
    }

    pub fn set_write_output(&mut self, output: Exception)
        ensures
            final(self).channel() == old(self).channel().with_write(output),
    {
        proof {
            use_type_invariant(&*self);
        }
        self.write_output = output;
    }

    pub fn is_closed(&self) -> (r: bool)
        ensures
            r == channel::was_closed(self.channel().history),
    {
        proof {
            use_type_invariant(self);
        }
        self.is_closed
    }

    pub fn disconnection_reason(&self) -> (r: DisconnectionReason)
        ensures
            r == channel::last_reason(self.channel().history),
    {
        proof {
            use_type_invariant(self);
        }
        self.disconnection_reason
    }

    pub fn is_paused(&self) -> (r: bool)
        ensures
            r == channel::was_paused(self.channel().history),
    {
        proof {
            use_type_invariant(self);
        }
        self.is_paused
    }

    /// Whether any frame has been written.
    pub fn wrote_anything(&self) -> (r: bool)
        ensures
            r == channel::was_written(self.channel().history),
    {
        proof {
            use_type_invariant(self);
        }
        self.wrote_anything
    }

    /// Records one more use. `change` says what it changes.
    fn record(&mut self, change: Change, event: Ghost<ChannelEvent>)
        requires
            change.of(event@),
        ensures
            final(self).channel() == old(self).channel().after(event@),
    {
        let ghost history = self.history@.push(event@);
        let mut earlier = FakeEndpointChannel::new(self.medium, "");
        proof {
            use_type_invariant(&*self);
            assert(history.drop_last() =~= self.history@);
        }
        std::mem::swap(&mut earlier, self);
        let is_closed = earlier.is_closed || matches!(change, Change::Closed(_));
        let disconnection_reason = match &change {
            Change::Closed(Some(reason)) => *reason,
            _ => earlier.disconnection_reason,
        };
        let is_paused = match &change {
            Change::Paused(p) => *p,
            _ => earlier.is_paused,
        };
        let wrote_anything = earlier.wrote_anything || matches!(change, Change::Wrote);
        let local_endpoint_id = match change {
            Change::LocalEndpointId(id) => id,
            _ => earlier.local_endpoint_id,
        };
        *self = FakeEndpointChannel {
            medium: earlier.medium,
            service_id: earlier.service_id,
            read_output: earlier.read_output,
            write_output: earlier.write_output,
            is_closed,
            disconnection_reason,
            is_paused,
            local_endpoint_id,
            wrote_anything,
            history: Ghost(history),
        };
    }
}

/// What one use of a channel changes.
enum Change {
    Nothing,
    Wrote,
    Closed(Option<DisconnectionReason>),
    Paused(bool),
    LocalEndpointId(String),
}

impl Change {
    spec fn of(self, event: ChannelEvent) -> bool {
        match self {
            Change::Nothing => event is Read || event is EnableEncryption || event
                is DisableEncryption,
            Change::Wrote => event is Write,
            Change::Closed(None) => event is Close,
            Change::Closed(Some(reason)) => event == ChannelEvent::CloseWithReason(reason),
            Change::Paused(true) => event is Pause,
            Change::Paused(false) => event is Resume,
            Change::LocalEndpointId(id) => event == ChannelEvent::SetLocalEndpointId(id@),
        }
    }
}

impl EndpointChannel for FakeEndpointChannel {
    type Key = ();

    closed spec fn channel(&self) -> ChannelView {
        ChannelView {
            medium: self.medium,
            service_id: self.service_id@,
            name: "fake-channel-"@ + self.service_id@,
            replies: Replies {
                read: Some(frames::result_view(self.read_output)),
                write: Some(self.write_output),
            },
            history: self.history@,
        }
    }

    open spec fn paused(&self) -> bool {
        channel::was_paused(self.channel().history)
    }

    open spec fn kind(&self) -> Seq<char> {
        "fake-channel-type"@
    }

    fn read(&mut self) -> (r: Result<Vec<u8>, Exception>)
        ensures
            frames::result_view(r) == old(self).next_read(),
    {
        let r = match &self.read_output {
            Ok(data) => Ok(vstd::slice::slice_to_vec(data.as_slice())),
            Err(e) => Err(*e),
        };
        self.record(Change::Nothing, Ghost(ChannelEvent::Read(frames::result_view(r))));
        assert(self.channel().history.drop_last() =~= old(self).channel().history);
        r
    }

    fn write(&mut self, data: &[u8]) -> (r: Exception)
        ensures
            r == old(self).next_write(),
    {
        let r = self.write_output;
        self.record(Change::Wrote, Ghost(ChannelEvent::Write(data@, r)));
        assert(self.channel().history.drop_last() =~= old(self).channel().history);
        r
    }

    fn close(&mut self) {
        self.record(Change::Closed(None), Ghost(ChannelEvent::Close));
    }

    fn close_with_reason(&mut self, reason: DisconnectionReason) {
        self.record(
            Change::Closed(Some(reason)),
            Ghost(ChannelEvent::CloseWithReason(reason)),
        );
    }

    fn medium(&self) -> Medium {
        self.medium
    }

    fn service_id(&self) -> String {
        self.service_id.clone()
    }

    fn name(&self) -> String {
        "fake-channel-".to_owned().concat(self.service_id.as_str())
    }

    fn channel_type(&self) -> String {
        "fake-channel-type".to_owned()
    }

    fn local_endpoint_id(&self) -> String {
        proof {
            use_type_invariant(self);
        }
        self.local_endpoint_id.clone()
    }

    fn set_local_endpoint_id(&mut self, local_endpoint_id: &str) {
        self.record(
            Change::LocalEndpointId(local_endpoint_id.to_owned()),
            Ghost(ChannelEvent::SetLocalEndpointId(local_endpoint_id@)),
        );
        assert(self.channel().history.drop_last() =~= old(self).channel().history);
    }

    fn pause(&mut self) {
        self.record(Change::Paused(true), Ghost(ChannelEvent::Pause));
    }

    fn resume(&mut self) {
        self.record(Change::Paused(false), Ghost(ChannelEvent::Resume));
    }

    fn is_paused(&self) -> bool {
        proof {
            use_type_invariant(self);
        }
        self.is_paused
    }

    fn enable_encryption(&mut self, _cipher: ()) {
        self.record(Change::Nothing, Ghost(ChannelEvent::EnableEncryption));
        assert(self.channel().history.drop_last() =~= old(self).channel().history);
    }

    fn disable_encryption(&mut self) {
        self.record(Change::Nothing, Ghost(ChannelEvent::DisableEncryption));
        assert(self.channel().history.drop_last() =~= old(self).channel().history);
    }
}

// ---------------------------------------------------------------------------
// FakeBwuHandler
// ---------------------------------------------------------------------------

/// What a [`FakeBwuHandler`] was called with. What a call does not come with is left
/// at its default.
#[derive(Clone, Debug, PartialEq, Eq)]
pub struct InputData {
    pub client_id: i64,
    pub service_id: Option<String>,
    pub endpoint_id: Option<String>,
}

/// What [`InputData`] stands for.
pub struct InputDataView {
    pub client_id: i64,
    pub service_id: Option<Seq<char>>,
    pub endpoint_id: Option<Seq<char>>,
}

impl View for InputData {
    type V = InputDataView;

    open spec fn view(&self) -> InputDataView {
        InputDataView {
            client_id: self.client_id,
            service_id: wire::opt_view(self.service_id),
            endpoint_id: wire::opt_view(self.endpoint_id),
        }
    }
}

impl Default for InputData {
    fn default() -> (r: InputData)
        ensures
            r@ == (InputDataView { client_id: 0, service_id: None, endpoint_id: None }),
    {
        InputData { client_id: 0, service_id: None, endpoint_id: None }
    }
}

/// The calls that a [`FakeBwuHandler`] has recorded.
#[derive(Clone, Debug, PartialEq, Eq)]
pub struct FakeBwuHandlerRecords {
    pub create_calls: Vec<InputData>,
    pub disconnect_calls: Vec<InputData>,
    pub handle_initialize_calls: Vec<InputData>,
    pub handle_revert_calls: Vec<InputData>,
}

/// What [`FakeBwuHandlerRecords`] stands for.
#[verifier::ext_equal]
pub struct RecordsView {
    pub create_calls: Seq<InputDataView>,
    pub disconnect_calls: Seq<InputDataView>,
    pub handle_initialize_calls: Seq<InputDataView>,
    pub handle_revert_calls: Seq<InputDataView>,
}

impl View for FakeBwuHandlerRecords {
    type V = RecordsView;

    open spec fn view(&self) -> RecordsView {
        RecordsView {
            create_calls: wire::seq_view(self.create_calls@),
            disconnect_calls: wire::seq_view(self.disconnect_calls@),
            handle_initialize_calls: wire::seq_view(self.handle_initialize_calls@),
            handle_revert_calls: wire::seq_view(self.handle_revert_calls@),
        }
    }
}

impl Default for FakeBwuHandlerRecords {
    fn default() -> (r: FakeBwuHandlerRecords)
        ensures
            r@ == no_records(),
    {
        FakeBwuHandlerRecords {
            create_calls: Vec::new(),
            disconnect_calls: Vec::new(),
            handle_initialize_calls: Vec::new(),
            handle_revert_calls: Vec::new(),
        }
    }
}

pub type FakeBwuHandlerHandle = FakeBwuHandlerRecords;

/// The handler of a medium that records its calls and offers a real frame for the
/// medium.
pub struct FakeBwuHandler {
    medium: Medium,
    records: FakeBwuHandlerRecords,
    calls: Ghost<Seq<MediumCall>>,
}

/// The hotspot that a [`FakeBwuHandler`] offers.
pub open spec fn fake_hotspot() -> upi::WifiHotspotCredentialsView {
    upi::WifiHotspotCredentialsView {
        ssid: Some("Direct-357a2d8c"@),
        password: Some("b592f7d3"@),
        port: Some(1234),
        frequency: Some(2412),
        gateway: Some("123.234.23.1"@),
        address_candidates: seq![
            pb::ServiceAddressView {
                ip_address: Some(
                    seq![
                        0xfeu8, 0x80, 0x00, 0x00, 0x00, 0x00, 0x00, 0x00, 0x4d, 0xb2, 0xb3, 0x5c,
                        0x22, 0x03, 0x98, 0xa1,
                    ],
                ),
                port: Some(1234),
            },
            pb::ServiceAddressView {
                ip_address: Some(seq![0x7bu8, 0xea, 0x17, 0x01]),
                port: Some(2412),
            },
        ],
    }
}

/// The frame that a [`FakeBwuHandler`] for `medium` offers; an empty one for a medium
/// that it cannot set up.
pub open spec fn fake_offer(medium: Medium, upgrade_service_id: Seq<char>) -> Seq<u8> {
    match medium {
        Medium::Bluetooth => frames::path_available_bytes(
            frames::bluetooth_path(upgrade_service_id, "01:02:03:04:05:06"@),
        ),
        Medium::WifiLan => frames::path_available_bytes(
            frames::wifi_lan_path(
                seq![
                    pb::ServiceAddressView {
                        ip_address: Some(seq![65u8, 66, 67, 68]),
                        port: Some(1234),
                    },
                ],
            ),
        ),
        Medium::WebRtc | Medium::WebRtcNonCellular => frames::path_available_bytes(
            frames::web_rtc_path("peer-id"@, pb::LocationHintView::unset()),
        ),
        Medium::WifiHotspot => frames::path_available_bytes(
            bwu::UpgradePathInfoView {
                medium: Some(upi::Medium::WifiHotspot.value()),
                supports_client_introduction_ack: Some(true),
                supports_disabling_encryption: Some(false),
                wifi_hotspot_credentials: Some(fake_hotspot()),
                ..bwu::UpgradePathInfoView::unset()
            },
        ),
        Medium::WifiDirect => frames::path_available_bytes(
            frames::wifi_direct_path(
                ""@,
                ""@,
                2143,
                2412,
                false,
                "123.234.23.1"@,
                "NC-WifiDirectTest"@,
                "b592f7d3"@,
            ),
        ),
        _ => Seq::empty(),
    }
}

/// What a [`FakeBwuHandler`] for `medium` gives: its offer, and a channel that was not used
/// yet.
pub open spec fn fake_replies(medium: Medium) -> HandlerReplies {
    HandlerReplies {
        offer: |client: ClientView, service_id: Seq<char>, endpoint_id: Seq<char>|
            Some(fake_offer(medium, service_id)),
        channel: |
            client: ClientView,
            service_id: Seq<char>,
            endpoint_id: Seq<char>,
            info: bwu::UpgradePathInfoView,
        | Some(Some(fake_channel(medium, service_id))),
    }
}

/// What is on record after one more call.
pub open spec fn recorded_after(records: RecordsView, call: MediumCall) -> RecordsView {
    match call {
        MediumCall::Initialize { client, upgrade_service_id, endpoint_id, .. } => RecordsView {
            handle_initialize_calls: records.handle_initialize_calls.push(
                InputDataView {
                    client_id: client.client_id,
                    service_id: Some(upgrade_service_id),
                    endpoint_id: Some(endpoint_id),
                },
            ),
            ..records
        },
        MediumCall::Revert { upgrade_service_id } => RecordsView {
            handle_revert_calls: records.handle_revert_calls.push(
                InputDataView {
                    client_id: 0,
                    service_id: Some(upgrade_service_id),
                    endpoint_id: None,
                },
            ),
            ..records
        },
        MediumCall::Create { client, service_id, endpoint_id, .. } => RecordsView {
            create_calls: records.create_calls.push(
                InputDataView {
                    client_id: client.client_id,
                    service_id: Some(service_id),
                    endpoint_id: Some(endpoint_id),
                },
            ),
            ..records
        },
        MediumCall::Disconnect { client, endpoint_id } => RecordsView {
            disconnect_calls: records.disconnect_calls.push(
                InputDataView {
                    client_id: client.client_id,
                    service_id: None,
                    endpoint_id: Some(endpoint_id),
                },
            ),
            ..records
        },
    }
}

/// Records with nothing in them.
pub open spec fn no_records() -> RecordsView {
    RecordsView {
        create_calls: Seq::empty(),
        disconnect_calls: Seq::empty(),
        handle_initialize_calls: Seq::empty(),
        handle_revert_calls: Seq::empty(),
    }
}

/// What is on record after some calls.
pub open spec fn recorded_of(calls: Seq<MediumCall>) -> RecordsView
    decreases calls.len(),
{
    if calls.len() == 0 {
        no_records()
    } else {
        recorded_after(recorded_of(calls.drop_last()), calls.last())
    }
}

/// A call that adds to two records tells them apart as they were.
proof fn lemma_recorded_after(a: RecordsView, b: RecordsView, call: MediumCall)
    ensures
        recorded_after(a, call) == recorded_after(b, call) ==> a == b,
{
    let x = recorded_after(a, call);
    let y = recorded_after(b, call);
    if x == y {
        if call is Initialize {
            assert(x.handle_initialize_calls.drop_last() =~= a.handle_initialize_calls);
            assert(y.handle_initialize_calls.drop_last() =~= b.handle_initialize_calls);
        } else if call is Revert {
            assert(x.handle_revert_calls.drop_last() =~= a.handle_revert_calls);
            assert(y.handle_revert_calls.drop_last() =~= b.handle_revert_calls);
        } else if call is Create {
            assert(x.create_calls.drop_last() =~= a.create_calls);
            assert(y.create_calls.drop_last() =~= b.create_calls);
        } else {
            assert(x.disconnect_calls.drop_last() =~= a.disconnect_calls);
            assert(y.disconnect_calls.drop_last() =~= b.disconnect_calls);
        }
    }
}

impl FakeBwuHandler {
    /// The calls that were recorded.
    pub closed spec fn records_view(&self) -> RecordsView {
        self.records@
    }

    pub fn new(medium: Medium, records: FakeBwuHandlerHandle) -> (r: FakeBwuHandler)
        ensures
            r.upgrade_medium() == medium,
            r.medium_calls() == Seq::<MediumCall>::empty(),
            r.records_view() == records@,
    {
        FakeBwuHandler { medium, records, calls: Ghost(Seq::empty()) }
    }

    /// Records with nothing in them.
    pub fn records() -> (r: FakeBwuHandlerHandle)
        ensures
            r@ == no_records(),
    {
        FakeBwuHandlerRecords::default()
    }

    /// The calls that were recorded.
    pub fn recorded(&self) -> (r: &FakeBwuHandlerRecords)
        ensures
            r@ == self.records_view(),
    {
        &self.records
    }

    /// Notes a call that was put on record.
    fn note(&mut self, before: Ghost<RecordsView>, call: Ghost<MediumCall>)
        requires
            old(self).records_view() == recorded_after(before@, call@),
        ensures
            final(self).upgrade_medium() == old(self).upgrade_medium(),
            final(self).records_view() == old(self).records_view(),
            final(self).medium_calls() == old(self).medium_calls().push(call@),
            final(self).medium_sound() == (before@ == recorded_of(old(self).medium_calls())),
    {
        let ghost earlier = self.calls@;
        self.calls = Ghost(earlier.push(call@));
        proof {
            assert(earlier.push(call@).drop_last() =~= earlier);
            lemma_recorded_after(before@, recorded_of(earlier), call@);
        }
    }

    fn path_available_bytes(&self, upgrade_service_id: &str) -> (r: Vec<u8>)
        ensures
            r@ == fake_offer(self.upgrade_medium(), upgrade_service_id@),
    {
        match self.medium {
            Medium::Bluetooth => for_bwu_bluetooth_path_available(
                upgrade_service_id,
                "01:02:03:04:05:06",
            ),
            Medium::WifiLan => {
                let addresses: [ServiceAddress; 1] = [
                    ServiceAddress { address: vec![65, 66, 67, 68], port: 1234 },
                ];
                assert(wire::seq_view(addresses@) =~= seq![
                    pb::ServiceAddressView {
                        ip_address: Some(seq![65u8, 66, 67, 68]),
                        port: Some(1234i32),
                    },
                ]) by {
                    assert(addresses@[0].address@ =~= seq![65u8, 66, 67, 68]);
                }
                for_bwu_wifi_lan_path_available(&addresses)
            },
            Medium::WebRtc | Medium::WebRtcNonCellular => for_bwu_webrtc_path_available(
                "peer-id",
                pb::LocationHint::default(),
            ),
            Medium::WifiHotspot => {
                let first = pb::ServiceAddress {
                    ip_address: Some(
                        vec![
                            0xfe, 0x80, 0x00, 0x00, 0x00, 0x00, 0x00, 0x00, 0x4d, 0xb2, 0xb3, 0x5c,
                            0x22, 0x03, 0x98, 0xa1,
                        ],
                    ),
                    port: Some(1234),
                };
                let second = pb::ServiceAddress {
                    ip_address: Some(vec![0x7b, 0xea, 0x17, 0x01]),
                    port: Some(2412),
                };
                assert(first@ == fake_hotspot().address_candidates[0]) by {
                    assert(first.ip_address->0@
                        =~= fake_hotspot().address_candidates[0].ip_address->0);
                }
                assert(second@ == fake_hotspot().address_candidates[1]) by {
                    assert(second.ip_address->0@
                        =~= fake_hotspot().address_candidates[1].ip_address->0);
                }
                let ghost a = first@;
                let ghost b = second@;
                let credentials = upi::WifiHotspotCredentials {
                    ssid: Some("Direct-357a2d8c".to_owned()),
                    password: Some("b592f7d3".to_owned()),
                    port: Some(1234),
                    frequency: Some(2412),
                    gateway: Some("123.234.23.1".to_owned()),
                    address_candidates: vec![first, second],
                };
                assert(credentials@.address_candidates =~= fake_hotspot().address_candidates) by {
                    assert(credentials@.address_candidates[0] == a);
                    assert(credentials@.address_candidates[1] == b);
                }
                for_bwu_wifi_hotspot_path_available(credentials, false)
            },
            Medium::WifiDirect => for_bwu_wifi_direct_path_available(
                "",
                "",
                2143,
                2412,
                false,
                "123.234.23.1",
                "NC-WifiDirectTest",
                "b592f7d3",
            ),
            _ => Vec::new(),
        }
    }
}

impl MediumBwuHandler<FakeEndpointChannel> for FakeBwuHandler {
    closed spec fn medium_calls(&self) -> Seq<MediumCall> {
        self.calls@
    }

    open spec fn medium_replies(&self) -> HandlerReplies {
        fake_replies(self.upgrade_medium())
    }

    /// What is on record is what the calls come to.
    open spec fn medium_sound(&self) -> bool {
        self.records_view() == recorded_of(self.medium_calls())
    }

    closed spec fn upgrade_medium(&self) -> Medium {
        self.medium
    }

    fn handle_initialize_upgraded_medium_for_endpoint(
        &mut self,
        client: &ClientProxy,
        upgrade_service_id: &str,
        endpoint_id: &str,
    ) -> (r: Vec<u8>)
        ensures
            r@ == fake_offer(old(self).upgrade_medium(), upgrade_service_id@),
            final(self).records_view() == (RecordsView {
                handle_initialize_calls: old(self).records_view().handle_initialize_calls.push(
                    InputDataView {
                        client_id: client@.client_id,
                        service_id: Some(upgrade_service_id@),
                        endpoint_id: Some(endpoint_id@),
                    },
                ),
                ..old(self).records_view()
            }),
    {
        self.records.handle_initialize_calls.push(
            InputData {
                client_id: client.client_id(),
                service_id: Some(upgrade_service_id.to_owned()),
                endpoint_id: Some(endpoint_id.to_owned()),
            },
        );
        let r = self.path_available_bytes(upgrade_service_id);
        let ghost call = MediumCall::Initialize {
            client: client@,
            upgrade_service_id: upgrade_service_id@,
            endpoint_id: endpoint_id@,
            frame: r@,
        };
        assert(self.records_view() =~= recorded_after(old(self).records_view(), call));
        self.note(Ghost(old(self).records_view()), Ghost(call));
        r
    }

    fn handle_revert_initiator_state_for_service(&mut self, upgrade_service_id: &str)
        ensures
            final(self).records_view() == (RecordsView {
                handle_revert_calls: old(self).records_view().handle_revert_calls.push(
                    InputDataView {
                        client_id: 0,
                        service_id: Some(upgrade_service_id@),
                        endpoint_id: None,
                    },
                ),
                ..old(self).records_view()
            }),
    {
        self.records.handle_revert_calls.push(
            InputData { service_id: Some(upgrade_service_id.to_owned()), ..Default::default() },
        );
        let ghost call = MediumCall::Revert { upgrade_service_id: upgrade_service_id@ };
        assert(self.records_view() =~= recorded_after(old(self).records_view(), call));
        self.note(Ghost(old(self).records_view()), Ghost(call));
    }

    fn create_upgraded_endpoint_channel(
        &mut self,
        client: &ClientProxy,
        service_id: &str,
        endpoint_id: &str,
        upgrade_path_info: &bwu::UpgradePathInfo,
    ) -> (r: Option<FakeEndpointChannel>)
        ensures
            r matches Some(c) && c.channel() == fake_channel(
                old(self).upgrade_medium(),
                service_id@,
            ),
            final(self).records_view() == (RecordsView {
                create_calls: old(self).records_view().create_calls.push(
                    InputDataView {
                        client_id: client@.client_id,
                        service_id: Some(service_id@),
                        endpoint_id: Some(endpoint_id@),
                    },
                ),
                ..old(self).records_view()
            }),
    {
        self.records.create_calls.push(
            InputData {
                client_id: client.client_id(),
                service_id: Some(service_id.to_owned()),
                endpoint_id: Some(endpoint_id.to_owned()),
            },
        );
        let r = Some(FakeEndpointChannel::new(self.medium, service_id));
        let ghost call = MediumCall::Create {
            client: client@,
            service_id: service_id@,
            endpoint_id: endpoint_id@,
            info: upgrade_path_info@,
            channel: handler::channel_of(r),
        };
        assert(self.records_view() =~= recorded_after(old(self).records_view(), call));
        self.note(Ghost(old(self).records_view()), Ghost(call));
        r
    }

    fn get_upgrade_medium(&self) -> Medium {
        self.medium
    }

    fn on_endpoint_disconnect(&mut self, client: &ClientProxy, endpoint_id: &str)
        ensures
            final(self).records_view() == (RecordsView {
                disconnect_calls: old(self).records_view().disconnect_calls.push(
                    InputDataView {
                        client_id: client@.client_id,
                        service_id: None,
                        endpoint_id: Some(endpoint_id@),
                    },
                ),
                ..old(self).records_view()
            }),
    {
        self.records.disconnect_calls.push(
            InputData {
                client_id: client.client_id(),
                service_id: None,
                endpoint_id: Some(endpoint_id.to_owned()),
            },
        );
        let ghost call = MediumCall::Disconnect { client: client@, endpoint_id: endpoint_id@ };
        assert(self.records_view() =~= recorded_after(old(self).records_view(), call));
        self.note(Ghost(old(self).records_view()), Ghost(call));
    }
}

/// The name of a call's argument; empty if the call did not come with one.
pub open spec fn name_or_empty(name: Option<Seq<char>>) -> Seq<char> {
    match name {
        Some(name) => name,
        None => Seq::empty(),
    }
}

/// The channel that [`notify_bwu_manager_of_incoming_connection`] hands in, as it is after
/// the manager took it: the channel of the endpoint, if an upgrade of it was in progress,
/// and otherwise the last one that was turned away.
pub open spec fn handed_in(before: BwuView, after: BwuView, endpoint_id: Seq<char>) -> ChannelView {
    if before.in_progress.contains(endpoint_id) && before.channels.contains_key(endpoint_id) {
        after.channels[endpoint_id]
    } else {
        after.retired.last()
    }
}

/// Hands the manager a channel over which the endpoint of a recorded offer introduces
/// itself, and gives the channel.
pub fn notify_bwu_manager_of_incoming_connection<'a, B: BwuHandler<FakeEndpointChannel>>(
    records: &FakeBwuHandlerHandle,
    medium: Medium,
    index: usize,
    bwu: &'a mut BwuManager<FakeEndpointChannel, B>,
    client: &mut ClientProxy,
) -> (r: &'a FakeEndpointChannel)
    requires
        index < records@.handle_initialize_calls.len(),
    ensures
        final(client)@ == old(client)@,
        ({
            let call = records@.handle_initialize_calls[index as int];
            let introduction = Ok::<Seq<u8>, Exception>(
                frames::introduction_bytes(name_or_empty(call.endpoint_id), ""@, false),
            );
            exists|o: Outcomes|
                o.introduced == introduction && final(bwu)@ == #[trigger] old(bwu)@.connected(
                    old(client)@,
                    fake_channel(medium, name_or_empty(call.service_id)).with_read(introduction),
                    o,
                )
        }),
        r.channel() == handed_in(
            old(bwu)@,
            final(bwu)@,
            name_or_empty(records@.handle_initialize_calls[index as int].endpoint_id),
        ),
{
    let call = &records.handle_initialize_calls[index];
    assert(call@ == records@.handle_initialize_calls[index as int]);
    let service_id = match &call.service_id {
        Some(id) => id.clone(),
        None => String::new(),
    };
    let endpoint_id = match &call.endpoint_id {
        Some(id) => id.clone(),
        None => String::new(),
    };
    assert(service_id@ =~= name_or_empty(call@.service_id));
    assert(endpoint_id@ =~= name_or_empty(call@.endpoint_id));
    let moves = bwu.is_upgrade_ongoing(endpoint_id.as_str())
        && bwu.channel_manager().get_channel_for_endpoint(endpoint_id.as_str()).is_some();
    let mut channel = FakeEndpointChannel::new(medium, service_id.as_str());
    let introduction = for_bwu_introduction(endpoint_id.as_str(), "", false);
    let len: usize = introduction.len();
    channel.set_read_output(Ok(introduction));
    let ghost opened = channel.channel();
    bwu.on_incoming_connection(client, IncomingSocketConnection { channel });
    proof {
        let o = choose|o: Outcomes|
            bwu@ == #[trigger] old(bwu)@.connected(old(client)@, opened, o);
        let told = Outcomes { introduced: opened.replies.read->0, ..o };
        assert(bwu@ == old(bwu)@.connected(old(client)@, opened, told));
        assert(len <= u64::MAX);
        laws::lemma_introduction_read(endpoint_id@, ""@, false);
        let confirmed = opened.after(ChannelEvent::Read(opened.replies.read->0)).after(
            ChannelEvent::Write(
                frames::event_bytes(bwu::EventType::ClientIntroductionAck),
                Exception::Success,
            ),
        );
        assert(opened.writes(told.confirmation).ok());
        if old(bwu)@.in_progress.contains(endpoint_id@) {
            assert(bwu@ == old(bwu)@.moved(old(client)@, endpoint_id@, confirmed, told));
        } else {
            assert(bwu@ == old(bwu)@.retire(confirmed));
        }
        assert(moves ==> bwu@.channels.contains_key(endpoint_id@));
        assert(!moves ==> bwu@.retired.len() > 0);
    }
    let bwu: &'a BwuManager<FakeEndpointChannel, B> = bwu;
    if moves {
        bwu.channel_manager().get_channel_for_endpoint(endpoint_id.as_str()).unwrap()
    } else {
        let retired = bwu.retired();
        &retired[retired.len() - 1]
    }
}

/// The fake handler of a medium offers that medium in a frame that the peer reads, for those
/// that it can offer, and nothing for the others.
pub proof fn lemma_fake_offers(medium: Medium, upgrade_service_id: Seq<char>)
    requires
        fake_offer(medium, upgrade_service_id).len() <= u64::MAX,
    ensures
        medium == Medium::Bluetooth || medium == Medium::WifiLan || medium == Medium::WebRtc
            || medium == Medium::WifiHotspot || medium == Medium::WifiDirect ==> (
        frame_laws::path_read(fake_offer(medium, upgrade_service_id)) matches Some(info)
            && exchange::names(info, medium) && info.supports_client_introduction_ack == Some(
            true,
        )),
        medium == Medium::WebRtcNonCellular ==> (frame_laws::path_read(
            fake_offer(medium, upgrade_service_id),
        ) matches Some(info) && exchange::names(info, Medium::WebRtc)),
        medium == Medium::UnknownMedium || medium == Medium::Mdns || medium == Medium::Ble || medium
            == Medium::WifiAware || medium == Medium::Nfc || medium == Medium::BleL2cap || medium
            == Medium::Usb || medium == Medium::Awdl ==> fake_offer(
            medium,
            upgrade_service_id,
        ).len() == 0,
{
    match medium {
        Medium::Bluetooth => {
            frame_laws::lemma_bluetooth_offer_read(upgrade_service_id, "01:02:03:04:05:06"@);
        },
        Medium::WifiLan => {
            frame_laws::lemma_socket_offer_read(
                seq![
                    pb::ServiceAddressView {
                        ip_address: Some(seq![65u8, 66, 67, 68]),
                        port: Some(1234),
                    },
                ],
            );
        },
        Medium::WebRtc => {
            frame_laws::lemma_web_rtc_offer_read("peer-id"@, pb::LocationHintView::unset());
        },
        Medium::WebRtcNonCellular => {
            frame_laws::lemma_web_rtc_offer_read("peer-id"@, pb::LocationHintView::unset());
        },
        Medium::WifiHotspot => {
            lemma_fake_texts();
            frame_laws::lemma_hotspot_offer_read(fake_hotspot(), false);
        },
        Medium::WifiDirect => {
            lemma_fake_texts();
            frame_laws::lemma_direct_offer_read(
                ""@,
                ""@,
                2143,
                2412,
                false,
                "123.234.23.1"@,
                "NC-WifiDirectTest"@,
                "b592f7d3"@,
            );
        },
        _ => {},
    }
}

proof fn lemma_fake_texts()
    ensures
        frame_laws::is_long(Some("b592f7d3"@), 8, 15),
        frame_laws::is_long(Some("NC-WifiDirectTest"@), 0, 31),
        text::is_dotted("123.234.23.1"@),
{
    reveal_strlit("b592f7d3");
    reveal_strlit("NC-WifiDirectTest");
    reveal_strlit("123.234.23.1");
    assert(vstd::utf8::is_ascii_chars("b592f7d3"@));
    vstd::utf8::is_ascii_chars_encode_utf8("b592f7d3"@);
    assert(vstd::utf8::is_ascii_chars("NC-WifiDirectTest"@));
    vstd::utf8::is_ascii_chars_encode_utf8("NC-WifiDirectTest"@);
    let gateway: Seq<u8> = seq![123u8, 234, 23, 1];
    text::lemma_address_round_trip(gateway);
    assert(text::dotted(gateway) =~= "123.234.23.1"@);
}

/// A fake channel starts out unused. A read of it fails and a write succeeds, until it is
/// told otherwise.
pub proof fn lemma_fake_channel(
    medium: Medium,
    service_id: Seq<char>,
    read: Result<Seq<u8>, Exception>,
    write: Exception,
)
    ensures
        ({
            let channel = fake_channel(medium, service_id);
            &&& channel.medium == medium
            &&& channel.service_id == service_id
            &&& channel.history.len() == 0
            &&& channel.reads(read) == Err::<Seq<u8>, Exception>(Exception::Failed)
            &&& channel.writes(write) == Exception::Success
            &&& channel.with_read(read).reads(Err(Exception::Failed)) == read
        }),
{
}

/// Each call of a fake handler is recorded once, in the list of its kind, with whom it was
/// about, and the other lists stay as they are.
pub proof fn lemma_fake_records(calls: Seq<MediumCall>, call: MediumCall)
    ensures
        ({
            let before = recorded_of(calls);
            let after = recorded_of(calls.push(call));
            &&& call is Initialize ==> {
                &&& after.handle_initialize_calls.drop_last() == before.handle_initialize_calls
                &&& after.handle_initialize_calls.last().service_id == Some(
                    call->Initialize_upgrade_service_id,
                )
                &&& after.handle_initialize_calls.last().endpoint_id == Some(
                    call->Initialize_endpoint_id,
                )
                &&& after.handle_initialize_calls.last().client_id
                    == call->Initialize_client.client_id
            }
            &&& !(call is Initialize) ==> after.handle_initialize_calls
                == before.handle_initialize_calls
            &&& call is Revert ==> {
                &&& after.handle_revert_calls.drop_last() == before.handle_revert_calls
                &&& after.handle_revert_calls.last().service_id == Some(
                    call->Revert_upgrade_service_id,
                )
                &&& after.handle_revert_calls.last().endpoint_id is None
            }
            &&& !(call is Revert) ==> after.handle_revert_calls == before.handle_revert_calls
            &&& call is Create ==> {
                &&& after.create_calls.drop_last() == before.create_calls
                &&& after.create_calls.last().service_id == Some(call->Create_service_id)
                &&& after.create_calls.last().endpoint_id == Some(call->Create_endpoint_id)
                &&& after.create_calls.last().client_id == call->Create_client.client_id
            }
            &&& !(call is Create) ==> after.create_calls == before.create_calls
            &&& call is Disconnect ==> {
                &&& after.disconnect_calls.drop_last() == before.disconnect_calls
                &&& after.disconnect_calls.last().endpoint_id == Some(call->Disconnect_endpoint_id)
                &&& after.disconnect_calls.last().client_id == call->Disconnect_client.client_id
            }
            &&& !(call is Disconnect) ==> after.disconnect_calls == before.disconnect_calls
        }),
        recorded_of(Seq::empty()).create_calls.len() == 0,
        recorded_of(Seq::empty()).disconnect_calls.len() == 0,
        recorded_of(Seq::empty()).handle_initialize_calls.len() == 0,
        recorded_of(Seq::empty()).handle_revert_calls.len() == 0,
{
    assert(calls.push(call).drop_last() =~= calls);
    let before = recorded_of(calls);
    let after = recorded_of(calls.push(call));
    match call {
        MediumCall::Initialize { .. } => {
            assert(after.handle_initialize_calls.drop_last() =~= before.handle_initialize_calls);
        },
        MediumCall::Revert { .. } => {
            assert(after.handle_revert_calls.drop_last() =~= before.handle_revert_calls);
        },
        MediumCall::Create { .. } => {
            assert(after.create_calls.drop_last() =~= before.create_calls);
        },
        MediumCall::Disconnect { .. } => {
            assert(after.disconnect_calls.drop_last() =~= before.disconnect_calls);
        },
    }
}

} // verus!

//! Building and parsing frames.
//!
//! Each `for_*` function builds and serializes one frame; [`from_bytes`] parses
//! and validates one.

use vstd::prelude::*;
use vstd::utf8::*;

use crate::mediums::{Medium, WifiDirectAuthType};
use crate::message;
use crate::message::Message;
use crate::proto as pb;
use crate::proto::bandwidth_upgrade_negotiation_frame as bwu;
use crate::proto::bandwidth_upgrade_negotiation_frame::upgrade_path_info as upi;
use crate::proto::payload_transfer_frame as ptf;
use crate::validator;
use crate::wire;

verus! {

/// The status that accepts a connection.
pub const STATUS_SUCCESS: i32 = 0;

/// The size of a payload whose size is not known.
pub const INDETERMINATE_SIZE: i64 = -1;

/// How an operation ended; [`Exception::Success`] stands for no error. Parsing and
/// validating give `Success`, `InvalidProtocolBuffer` and `IllegalCharacters`
/// only; the others come from the transport.
#[derive(Clone, Copy, Debug, PartialEq, Eq, Structural)]
pub enum Exception {
    Success,
    Failed,
    Io,
    Interrupted,
    InvalidProtocolBuffer,
    Execution,
    Timeout,
    IllegalCharacters,
}

impl Exception {
    pub open spec fn spec_ok(self) -> bool {
        self is Success
    }

    #[verifier::when_used_as_spec(spec_ok)]
    pub fn ok(self) -> (r: bool)
        ensures
            r == self.spec_ok(),
    {
        matches!(self, Exception::Success)
    }
}

/// A network address of the platform, as distinct from the message
/// [`pb::ServiceAddress`].
#[derive(Clone, Debug, PartialEq, Eq)]
pub struct ServiceAddress {
    /// 4 bytes (IPv4) or 16 bytes (IPv6), most significant first.
    pub address: Vec<u8>,
    pub port: i32,
}

impl View for ServiceAddress {
    type V = pb::ServiceAddressView;

    open spec fn view(&self) -> pb::ServiceAddressView {
        pb::ServiceAddressView { ip_address: Some(self.address@), port: Some(self.port) }
    }
}

fn service_address_to_proto(addr: &ServiceAddress) -> (r: pb::ServiceAddress)
    ensures
        r@ == addr@,
{
    pb::ServiceAddress {
        ip_address: Some(vstd::slice::slice_to_vec(addr.address.as_slice())),
        port: Some(addr.port),
    }
}

/// What a device says of itself when it asks for a connection.
#[derive(Clone, Debug)]
pub struct ConnectionInfo {
    pub local_endpoint_id: String,
    pub local_endpoint_info: Vec<u8>,
    pub nonce: i32,
    pub supports_5ghz: bool,
    pub bssid: String,
    pub ap_frequency: i32,
    pub supported_mediums: Vec<Medium>,
    pub keep_alive_interval_millis: i32,
    pub keep_alive_timeout_millis: i32,
    pub medium_role: Option<pb::MediumRole>,
    pub supported_wifi_direct_auth_types: Vec<WifiDirectAuthType>,
}

impl Default for ConnectionInfo {
    fn default() -> (r: ConnectionInfo)
        ensures
            r.local_endpoint_id@.len() == 0,
            r.local_endpoint_info@.len() == 0,
            r.nonce == 0,
            !r.supports_5ghz,
            r.bssid@.len() == 0,
            r.ap_frequency == 0,
            r.supported_mediums@.len() == 0,
            r.keep_alive_interval_millis == 0,
            r.keep_alive_timeout_millis == 0,
            r.medium_role is None,
            r.supported_wifi_direct_auth_types@.len() == 0,
    {
        ConnectionInfo {
            local_endpoint_id: String::new(),
            local_endpoint_info: Vec::new(),
            nonce: 0,
            supports_5ghz: false,
            bssid: String::new(),
            ap_frequency: 0,
            supported_mediums: Vec::new(),
            keep_alive_interval_millis: 0,
            keep_alive_timeout_millis: 0,
            medium_role: None,
            supported_wifi_direct_auth_types: Vec::new(),
        }
    }
}

// ---------------------------------------------------------------------------
// Parsing
// ---------------------------------------------------------------------------

/// What `bytes` parses as: the frame, if it decodes and is valid.
#[verifier::opaque]
pub open spec fn parsed(bytes: Seq<u8>) -> Result<pb::OfflineFrameView, Exception> {
    match message::decoded::<pb::OfflineFrame>(bytes) {
        Some(frame) => if validator::verdict(frame).ok() {
            Ok(frame)
        } else {
            Err(validator::verdict(frame))
        },
        None => Err(Exception::InvalidProtocolBuffer),
    }
}

pub open spec fn result_view<T: View>(r: Result<T, Exception>) -> Result<T::V, Exception> {
    match r {
        Ok(v) => Ok(v@),
        Err(e) => Err(e),
    }
}

/// Parses and validates a frame.
pub fn from_bytes(bytes: &[u8]) -> (r: Result<pb::OfflineFrame, Exception>)
    ensures
        result_view(r) == parsed(bytes@),
{
    proof {
        reveal(parsed);
    }
    match message::decode::<pb::OfflineFrame>(bytes) {
        Some(frame) => {
            let ex = validator::ensure_valid_offline_frame(&frame);
            if ex.ok() {
                Ok(frame)
            } else {
                Err(ex)
            }
        },
        None => Err(Exception::InvalidProtocolBuffer),
    }
}

/// The type of a frame; unknown unless the frame is of version 1.
pub open spec fn frame_type_of(frame: pb::OfflineFrameView) -> pb::v1_frame::FrameType {
    match frame.v1 {
        Some(v1) => if frame.version == Some(pb::offline_frame::Version::V1.value()) {
            match v1.type_ {
                Some(n) => match pb::v1_frame::FrameType::from_i32(n) {
                    Some(t) => t,
                    None => pb::v1_frame::FrameType::UnknownFrameType,
                },
                None => pb::v1_frame::FrameType::UnknownFrameType,
            }
        } else {
            pb::v1_frame::FrameType::UnknownFrameType
        },
        None => pb::v1_frame::FrameType::UnknownFrameType,
    }
}

/// The type of a frame, or `UnknownFrameType` if it is not recognized.
pub fn get_frame_type(frame: &pb::OfflineFrame) -> (r: pb::v1_frame::FrameType)
    ensures
        r == frame_type_of(frame@),
{
    if frame.version == Some(pb::offline_frame::Version::V1.value()) {
        if let Some(v1) = &frame.v1 {
            return match pb::v1_frame::FrameType::from_i32(v1.type_.unwrap_or(0)) {
                Some(t) => t,
                None => pb::v1_frame::FrameType::UnknownFrameType,
            };
        }
    }
    pb::v1_frame::FrameType::UnknownFrameType
}

// ---------------------------------------------------------------------------
// Building
// ---------------------------------------------------------------------------

/// A frame of version 1.
pub open spec fn version_1(v1: pb::V1FrameView) -> pb::OfflineFrameView {
    pb::OfflineFrameView { version: Some(pb::offline_frame::Version::V1.value()), v1: Some(v1) }
}

/// The bytes of a frame of version 1.
pub open spec fn frame_bytes(v1: pb::V1FrameView) -> Seq<u8> {
    message::encoded::<pb::OfflineFrame>(version_1(v1))
}

/// Parsing the bytes of a frame gives that frame back if it is valid, and fails
/// with the verdict on it if it is not.
pub proof fn lemma_parsed_frame_bytes(v1: pb::V1FrameView)
    requires
        frame_bytes(v1).len() <= u64::MAX,
    ensures
        parsed(frame_bytes(v1)) == if validator::verdict(version_1(v1)).ok() {
            Ok::<pb::OfflineFrameView, Exception>(version_1(v1))
        } else {
            Err(validator::verdict(version_1(v1)))
        },
{
    reveal(parsed);
    message::lemma_decoded_encoded::<pb::OfflineFrame>(version_1(v1));
}

/// The bytes of a frame are never none: no bytes at all stand for an offer that could not be
/// made.
pub proof fn lemma_frame_bytes_not_empty(v1: pb::V1FrameView)
    ensures
        frame_bytes(v1).len() > 0,
{
    let parts = pb::OfflineFrame::parts(version_1(v1));
    let payload = wire::ValueView::Bytes(message::encoded::<pb::V1Frame>(v1));
    let front = message::all_fields(parts.drop_last());
    let last = message::fields_of(2, seq![payload]);
    assert(message::all_fields(parts) == front + last);
    assert((front + last).last() == wire::FieldView { number: 2, value: payload });
    assert(wire::varint_bytes(18).len() == 1);
}

fn encode_v1(v1: pb::V1Frame) -> (r: Vec<u8>)
    ensures
        r@ == frame_bytes(v1@),
{
    let frame = pb::OfflineFrame {
        version: Some(pb::offline_frame::Version::V1.value()),
        v1: Some(v1),
    };
    frame.encode_to_vec()
}

/// The name that the bytes of an endpoint's info give, with each part that is not
/// UTF-8 replaced.
pub uninterp spec fn utf8_lossy(bytes: Seq<u8>) -> Seq<char>;

/// Calls `String::from_utf8_lossy`, which reads the bytes as UTF-8 and puts
/// U+FFFD in place of what is not. Bytes that are UTF-8 are read as they stand;
/// what becomes of others is left to the name [`utf8_lossy`].
#[verifier::external_body]
fn string_from_utf8_lossy(bytes: &[u8]) -> (r: String)
    ensures
        r@ == utf8_lossy(bytes@),
        valid_utf8(bytes@) ==> r@ == decode_utf8(bytes@),
{
    String::from_utf8_lossy(bytes).into_owned()
}

/// A string that is left out where it is empty.
pub open spec fn unless_empty(s: Seq<char>) -> Option<Seq<char>> {
    if s.len() == 0 {
        None
    } else {
        Some(s)
    }
}

pub open spec fn if_positive(n: i32) -> Option<i32> {
    if n > 0 {
        Some(n)
    } else {
        None
    }
}

/// The part of a connection request that does not depend on the device, given the
/// endpoint's name.
pub open spec fn common_request(
    info: ConnectionInfo,
    endpoint_name: Seq<char>,
) -> pb::ConnectionRequestFrameView {
    let named = info.local_endpoint_info@.len() > 0;
    pb::ConnectionRequestFrameView {
        endpoint_name: if named {
            Some(endpoint_name)
        } else {
            None
        },
        endpoint_info: if named {
            Some(info.local_endpoint_info@)
        } else {
            None
        },
        nonce: Some(info.nonce),
        mediums: Seq::new(
            info.supported_mediums@.len(),
            |i: int| info.supported_mediums@[i].value(),
        ),
        medium_metadata: Some(
            pb::MediumMetadataView {
                supports_5_ghz: Some(info.supports_5ghz),
                bssid: unless_empty(info.bssid@),
                ap_frequency: Some(info.ap_frequency),
                ..pb::MediumMetadataView::unset()
            },
        ),
        keep_alive_interval_millis: if_positive(info.keep_alive_interval_millis),
        keep_alive_timeout_millis: if_positive(info.keep_alive_timeout_millis),
        ..pb::ConnectionRequestFrameView::unset()
    }
}

fn build_connection_request_common(
    connection_info: &ConnectionInfo,
    endpoint_name: String,
) -> (r: pb::ConnectionRequestFrame)
    ensures
        r@ == common_request(*connection_info, endpoint_name@),
{
    let mut req = pb::ConnectionRequestFrame::default();
    if connection_info.local_endpoint_info.len() > 0 {
        req.endpoint_name = Some(endpoint_name);
        req.endpoint_info = Some(
            vstd::slice::slice_to_vec(connection_info.local_endpoint_info.as_slice()),
        );
    }
    req.nonce = Some(connection_info.nonce);

    let mut mm = pb::MediumMetadata::default();
    mm.supports_5_ghz = Some(connection_info.supports_5ghz);
    if !connection_info.bssid.as_str().is_empty() {
        mm.bssid = Some(connection_info.bssid.clone());
    }
    mm.ap_frequency = Some(connection_info.ap_frequency);
    req.medium_metadata = Some(mm);

    let mut mediums: Vec<i32> = Vec::new();
    let mut i: usize = 0;
    while i < connection_info.supported_mediums.len()
        invariant
            i <= connection_info.supported_mediums@.len(),
            mediums@.len() == i,
            forall|j: int|
                0 <= j < i ==> #[trigger] mediums@[j]
                    == connection_info.supported_mediums@[j].value(),
        decreases connection_info.supported_mediums@.len() - i,
    {
        mediums.push(
            medium_to_connection_request_medium(connection_info.supported_mediums[i]).value(),
        );
        i = i + 1;
    }
    req.mediums = mediums;
    if connection_info.keep_alive_interval_millis > 0 {
        req.keep_alive_interval_millis = Some(connection_info.keep_alive_interval_millis);
    }
    if connection_info.keep_alive_timeout_millis > 0 {
        req.keep_alive_timeout_millis = Some(connection_info.keep_alive_timeout_millis);
    }
    assert(req@.mediums =~= common_request(*connection_info, endpoint_name@).mediums);
    req
}

/// A connection request from a Connections device, given the endpoint's name.
pub open spec fn connections_request(
    device: Option<pb::ConnectionsDeviceView>,
    info: ConnectionInfo,
    enable_dynamic_role_switch: bool,
    endpoint_name: Seq<char>,
) -> pb::ConnectionRequestFrameView {
    let common = common_request(info, endpoint_name);
    pb::ConnectionRequestFrameView {
        device: match device {
            Some(d) => if d.endpoint_id is Some {
                Some(pb::connection_request_frame::DeviceView::ConnectionsDevice(d))
            } else {
                None
            },
            None => None,
        },
        endpoint_id: unless_empty(info.local_endpoint_id@),
        medium_metadata: Some(
            pb::MediumMetadataView {
                medium_role: if enable_dynamic_role_switch {
                    info.medium_role
                } else {
                    None
                },
                supported_wifi_direct_auth_types: Seq::new(
                    info.supported_wifi_direct_auth_types@.len(),
                    |i: int| wfd_auth_number(info.supported_wifi_direct_auth_types@[i]).value(),
                ),
                ..common.medium_metadata->0
            },
        ),
        ..common
    }
}

/// Builds a Connections `CONNECTION_REQUEST`.
pub fn for_connection_request_connections(
    proto_connections_device: Option<pb::ConnectionsDevice>,
    connection_info: &ConnectionInfo,
    enable_dynamic_role_switch: bool,
) -> (r: Vec<u8>)
    ensures
        r@ == connection_request_bytes(
            connections_request(
                wire::opt_view(proto_connections_device),
                *connection_info,
                enable_dynamic_role_switch,
                utf8_lossy(connection_info.local_endpoint_info@),
            ),
        ),
        valid_utf8(connection_info.local_endpoint_info@) ==> r@ == connection_request_bytes(
            connections_request(
                wire::opt_view(proto_connections_device),
                *connection_info,
                enable_dynamic_role_switch,
                decode_utf8(connection_info.local_endpoint_info@),
            ),
        ),
{
    let endpoint_name = string_from_utf8_lossy(connection_info.local_endpoint_info.as_slice());
    named_connection_request_connections(
        proto_connections_device,
        connection_info,
        enable_dynamic_role_switch,
        endpoint_name,
    )
}

/// Builds a Connections `CONNECTION_REQUEST` for an endpoint whose info reads as
/// `endpoint_name`.
pub fn named_connection_request_connections(
    proto_connections_device: Option<pb::ConnectionsDevice>,
    connection_info: &ConnectionInfo,
    enable_dynamic_role_switch: bool,
    endpoint_name: String,
) -> (r: Vec<u8>)
    ensures
        r@ == connection_request_bytes(
            connections_request(
                wire::opt_view(proto_connections_device),
                *connection_info,
                enable_dynamic_role_switch,
                endpoint_name@,
            ),
        ),
{
    let ghost name = endpoint_name@;
    let mut req = build_connection_request_common(connection_info, endpoint_name);
    if let Some(dev) = proto_connections_device {
        if dev.endpoint_id.is_some() {
            req.device = Some(pb::connection_request_frame::Device::ConnectionsDevice(dev));
        }
    }
    if !connection_info.local_endpoint_id.as_str().is_empty() {
        req.endpoint_id = Some(connection_info.local_endpoint_id.clone());
    }
    let mut mm = match req.medium_metadata {
        Some(mm) => mm,
        None => pb::MediumMetadata::default(),
    };
    if enable_dynamic_role_switch {
        mm.medium_role = connection_info.medium_role;
    }
    let mut auth_types: Vec<i32> = Vec::new();
    let mut i: usize = 0;
    while i < connection_info.supported_wifi_direct_auth_types.len()
        invariant
            i <= connection_info.supported_wifi_direct_auth_types@.len(),
            auth_types@.len() == i,
            forall|j: int|
                0 <= j < i ==> #[trigger] auth_types@[j] == wfd_auth_number(
                    connection_info.supported_wifi_direct_auth_types@[j],
                ).value(),
        decreases connection_info.supported_wifi_direct_auth_types@.len() - i,
    {
        auth_types.push(
            wfd_auth_type_to_medium_metadata_wfd_auth_type(
                connection_info.supported_wifi_direct_auth_types[i],
            ).value(),
        );
        i = i + 1;
    }
    mm.supported_wifi_direct_auth_types = auth_types;
    req.medium_metadata = Some(mm);
    proof {
        let wanted = connections_request(
            wire::opt_view(proto_connections_device),
            *connection_info,
            enable_dynamic_role_switch,
            name,
        );
        assert(req@.medium_metadata->0.supported_wifi_direct_auth_types
            =~= wanted.medium_metadata->0.supported_wifi_direct_auth_types);
    }
    connection_request(req)
}

/// The bytes of a connection request.
pub open spec fn connection_request_bytes(request: pb::ConnectionRequestFrameView) -> Seq<u8> {
    frame_bytes(
        pb::V1FrameView {
            type_: Some(pb::v1_frame::FrameType::ConnectionRequest.value()),
            connection_request: Some(request),
            ..pb::V1FrameView::unset()
        },
    )
}

fn connection_request(request: pb::ConnectionRequestFrame) -> (r: Vec<u8>)
    ensures
        r@ == connection_request_bytes(request@),
{
    encode_v1(
        pb::V1Frame {
            type_: Some(pb::v1_frame::FrameType::ConnectionRequest.value()),
            connection_request: Some(request),
            ..Default::default()
        },
    )
}

/// A connection request from a Presence device, given the endpoint's name. Where
/// the local endpoint has an id, the request carries the device's id, and an empty
/// one where the device has none.
pub open spec fn presence_request(
    device: pb::PresenceDeviceView,
    info: ConnectionInfo,
    endpoint_name: Seq<char>,
) -> pb::ConnectionRequestFrameView {
    pb::ConnectionRequestFrameView {
        endpoint_id: if info.local_endpoint_id@.len() == 0 {
            None
        } else {
            match device.endpoint_id {
                Some(id) => Some(id),
                None => Some(Seq::empty()),
            }
        },
        device: Some(pb::connection_request_frame::DeviceView::PresenceDevice(device)),
        ..common_request(info, endpoint_name)
    }
}

/// Builds a Presence `CONNECTION_REQUEST`.
pub fn for_connection_request_presence(
    proto_presence_device: pb::PresenceDevice,
    connection_info: &ConnectionInfo,
) -> (r: Vec<u8>)
    ensures
        r@ == connection_request_bytes(
            presence_request(
                proto_presence_device@,
                *connection_info,
                utf8_lossy(connection_info.local_endpoint_info@),
            ),
        ),
        valid_utf8(connection_info.local_endpoint_info@) ==> r@ == connection_request_bytes(
            presence_request(
                proto_presence_device@,
                *connection_info,
                decode_utf8(connection_info.local_endpoint_info@),
            ),
        ),
{
    let endpoint_name = string_from_utf8_lossy(connection_info.local_endpoint_info.as_slice());
    named_connection_request_presence(proto_presence_device, connection_info, endpoint_name)
}

/// Builds a Presence `CONNECTION_REQUEST` for an endpoint whose info reads as
/// `endpoint_name`.
pub fn named_connection_request_presence(
    proto_presence_device: pb::PresenceDevice,
    connection_info: &ConnectionInfo,
    endpoint_name: String,
) -> (r: Vec<u8>)
    ensures
        r@ == connection_request_bytes(
            presence_request(proto_presence_device@, *connection_info, endpoint_name@),
        ),
{
    let mut req = build_connection_request_common(connection_info, endpoint_name);
    if !connection_info.local_endpoint_id.as_str().is_empty() {
        req.endpoint_id = match &proto_presence_device.endpoint_id {
            Some(id) => Some(id.clone()),
            None => Some(String::new()),
        };
    }
    req.device = Some(
        pb::connection_request_frame::Device::PresenceDevice(proto_presence_device),
    );
    connection_request(req)
}

/// The answer to a connection request with the given status.
pub open spec fn connection_response(
    status: i32,
    os_info: pb::OsInfo,
    safe_to_disconnect_version: i32,
) -> pb::ConnectionResponseFrameView {
    pb::ConnectionResponseFrameView {
        status: Some(status),
        response: Some(
            if status == STATUS_SUCCESS {
                pb::connection_response_frame::ResponseStatus::Accept.value()
            } else {
                pb::connection_response_frame::ResponseStatus::Reject.value()
            },
        ),
        os_info: Some(os_info),
        multiplex_socket_bitmask: Some(0),
        safe_to_disconnect_version: Some(safe_to_disconnect_version),
        ..pb::ConnectionResponseFrameView::unset()
    }
}

/// The bytes of the answer to a connection request.
pub open spec fn connection_response_bytes(
    status: i32,
    os_info: pb::OsInfo,
    safe_to_disconnect_version: i32,
) -> Seq<u8> {
    frame_bytes(
        pb::V1FrameView {
            type_: Some(pb::v1_frame::FrameType::ConnectionResponse.value()),
            connection_response: Some(
                connection_response(status, os_info, safe_to_disconnect_version),
            ),
            ..pb::V1FrameView::unset()
        },
    )
}

/// Builds a `CONNECTION_RESPONSE`. The older `status` is set beside `response`.
pub fn for_connection_response(
    status: i32,
    os_info: pb::OsInfo,
    safe_to_disconnect_version: i32,
) -> (r: Vec<u8>)
    ensures
        r@ == connection_response_bytes(status, os_info, safe_to_disconnect_version),
{
    let response = if status == STATUS_SUCCESS {
        pb::connection_response_frame::ResponseStatus::Accept
    } else {
        pb::connection_response_frame::ResponseStatus::Reject
    };
    let sub = pb::ConnectionResponseFrame {
        status: Some(status),
        response: Some(response.value()),
        os_info: Some(os_info),
        multiplex_socket_bitmask: Some(0),
        safe_to_disconnect_version: Some(safe_to_disconnect_version),
        ..Default::default()
    };
    encode_v1(
        pb::V1Frame {
            type_: Some(pb::v1_frame::FrameType::ConnectionResponse.value()),
            connection_response: Some(sub),
            ..Default::default()
        },
    )
}

/// The bytes of a payload transfer.
pub open spec fn payload_transfer_bytes(transfer: pb::PayloadTransferFrameView) -> Seq<u8> {
    frame_bytes(
        pb::V1FrameView {
            type_: Some(pb::v1_frame::FrameType::PayloadTransfer.value()),
            payload_transfer: Some(transfer),
            ..pb::V1FrameView::unset()
        },
    )
}

fn payload_transfer(transfer: pb::PayloadTransferFrame) -> (r: Vec<u8>)
    ensures
        r@ == payload_transfer_bytes(transfer@),
{
    encode_v1(
        pb::V1Frame {
            type_: Some(pb::v1_frame::FrameType::PayloadTransfer.value()),
            payload_transfer: Some(transfer),
            ..Default::default()
        },
    )
}

/// A DATA `PAYLOAD_TRANSFER`.
pub open spec fn data_transfer(
    header: ptf::PayloadHeaderView,
    chunk: ptf::PayloadChunkView,
) -> pb::PayloadTransferFrameView {
    pb::PayloadTransferFrameView {
        packet_type: Some(ptf::PacketType::Data.value()),
        payload_header: Some(header),
        payload_chunk: Some(chunk),
        ..pb::PayloadTransferFrameView::unset()
    }
}

/// A CONTROL `PAYLOAD_TRANSFER`.
pub open spec fn control_transfer(
    header: ptf::PayloadHeaderView,
    control: ptf::ControlMessage,
) -> pb::PayloadTransferFrameView {
    pb::PayloadTransferFrameView {
        packet_type: Some(ptf::PacketType::Control.value()),
        payload_header: Some(header),
        control_message: Some(control),
        ..pb::PayloadTransferFrameView::unset()
    }
}

/// A PAYLOAD_ACK `PAYLOAD_TRANSFER`: its header names the payload, and no size.
pub open spec fn payload_ack_transfer(payload_id: i64) -> pb::PayloadTransferFrameView {
    pb::PayloadTransferFrameView {
        packet_type: Some(ptf::PacketType::PayloadAck.value()),
        payload_header: Some(
            ptf::PayloadHeaderView {
                id: Some(payload_id),
                total_size: Some(INDETERMINATE_SIZE),
                ..ptf::PayloadHeaderView::unset()
            },
        ),
        ..pb::PayloadTransferFrameView::unset()
    }
}

/// Builds a DATA `PAYLOAD_TRANSFER`.
pub fn for_data_payload_transfer(header: ptf::PayloadHeader, chunk: ptf::PayloadChunk) -> (r: Vec<
    u8,
>)
    ensures
        r@ == payload_transfer_bytes(data_transfer(header@, chunk@)),
{
    payload_transfer(
        pb::PayloadTransferFrame {
            packet_type: Some(ptf::PacketType::Data.value()),
            payload_header: Some(header),
            payload_chunk: Some(chunk),
            ..Default::default()
        },
    )
}

/// Builds a CONTROL `PAYLOAD_TRANSFER`.
pub fn for_control_payload_transfer(
    header: ptf::PayloadHeader,
    control: ptf::ControlMessage,
) -> (r: Vec<u8>)
    ensures
        r@ == payload_transfer_bytes(control_transfer(header@, control)),
{
    payload_transfer(
        pb::PayloadTransferFrame {
            packet_type: Some(ptf::PacketType::Control.value()),
            payload_header: Some(header),
            control_message: Some(control),
            ..Default::default()
        },
    )
}

/// Builds a PAYLOAD_ACK `PAYLOAD_TRANSFER`.
pub fn for_payload_ack_payload_transfer(payload_id: i64) -> (r: Vec<u8>)
    ensures
        r@ == payload_transfer_bytes(payload_ack_transfer(payload_id)),
{
    let header = ptf::PayloadHeader {
        id: Some(payload_id),
        total_size: Some(INDETERMINATE_SIZE),
        ..Default::default()
    };
    payload_transfer(
        pb::PayloadTransferFrame {
            packet_type: Some(ptf::PacketType::PayloadAck.value()),
            payload_header: Some(header),
            ..Default::default()
        },
    )
}

/// The bytes of one step of a bandwidth upgrade.
pub open spec fn negotiation_bytes(step: pb::BandwidthUpgradeNegotiationFrameView) -> Seq<u8> {
    frame_bytes(
        pb::V1FrameView {
            type_: Some(pb::v1_frame::FrameType::BandwidthUpgradeNegotiation.value()),
            bandwidth_upgrade_negotiation: Some(step),
            ..pb::V1FrameView::unset()
        },
    )
}

fn negotiation(step: pb::BandwidthUpgradeNegotiationFrame) -> (r: Vec<u8>)
    ensures
        r@ == negotiation_bytes(step@),
{
    encode_v1(
        pb::V1Frame {
            type_: Some(pb::v1_frame::FrameType::BandwidthUpgradeNegotiation.value()),
            bandwidth_upgrade_negotiation: Some(step),
            ..Default::default()
        },
    )
}

/// The bytes of an offer of an upgrade path.
pub open spec fn path_available_bytes(info: bwu::UpgradePathInfoView) -> Seq<u8> {
    negotiation_bytes(
        pb::BandwidthUpgradeNegotiationFrameView {
            event_type: Some(bwu::EventType::UpgradePathAvailable.value()),
            upgrade_path_info: Some(info),
            ..pb::BandwidthUpgradeNegotiationFrameView::unset()
        },
    )
}

/// A valid offer is read as it was made.
pub proof fn lemma_path_available_parsed(info: bwu::UpgradePathInfoView)
    requires
        validator::path_available_verdict(info).ok(),
        path_available_bytes(info).len() <= u64::MAX,
    ensures
        parsed(path_available_bytes(info)) matches Ok(frame) && frame.v1 matches Some(v1)
            && v1.bandwidth_upgrade_negotiation == Some(
            pb::BandwidthUpgradeNegotiationFrameView {
                event_type: Some(bwu::EventType::UpgradePathAvailable.value()),
                upgrade_path_info: Some(info),
                ..pb::BandwidthUpgradeNegotiationFrameView::unset()
            },
        ),
{
    let step = pb::BandwidthUpgradeNegotiationFrameView {
        event_type: Some(bwu::EventType::UpgradePathAvailable.value()),
        upgrade_path_info: Some(info),
        ..pb::BandwidthUpgradeNegotiationFrameView::unset()
    };
    lemma_parsed_frame_bytes(
        pb::V1FrameView {
            type_: Some(pb::v1_frame::FrameType::BandwidthUpgradeNegotiation.value()),
            bandwidth_upgrade_negotiation: Some(step),
            ..pb::V1FrameView::unset()
        },
    );
}

fn bwu_upgrade_path_available(upgrade_path_info: bwu::UpgradePathInfo) -> (r: Vec<u8>)
    ensures
        r@ == path_available_bytes(upgrade_path_info@),
{
    negotiation(
        pb::BandwidthUpgradeNegotiationFrame {
            event_type: Some(bwu::EventType::UpgradePathAvailable.value()),
            upgrade_path_info: Some(upgrade_path_info),
            ..Default::default()
        },
    )
}

/// The path of an offer of a hotspot.
pub open spec fn wifi_hotspot_path(
    credentials: upi::WifiHotspotCredentialsView,
    supports_disabling_encryption: bool,
) -> bwu::UpgradePathInfoView {
    bwu::UpgradePathInfoView {
        medium: Some(upi::Medium::WifiHotspot.value()),
        supports_client_introduction_ack: Some(true),
        supports_disabling_encryption: Some(supports_disabling_encryption),
        wifi_hotspot_credentials: Some(credentials),
        ..bwu::UpgradePathInfoView::unset()
    }
}

/// Builds a BWU `UPGRADE_PATH_AVAILABLE` for `WIFI_HOTSPOT`.
pub fn for_bwu_wifi_hotspot_path_available(
    credentials: upi::WifiHotspotCredentials,
    supports_disabling_encryption: bool,
) -> (r: Vec<u8>)
    ensures
        r@ == path_available_bytes(wifi_hotspot_path(credentials@, supports_disabling_encryption)),
{
    bwu_upgrade_path_available(
        bwu::UpgradePathInfo {
            medium: Some(upi::Medium::WifiHotspot.value()),
            supports_client_introduction_ack: Some(true),
            supports_disabling_encryption: Some(supports_disabling_encryption),
            wifi_hotspot_credentials: Some(credentials),
            ..Default::default()
        },
    )
}

/// The socket that a list of addresses is offered as. The last address is given
/// alone as well if it is an IPv4 address: those stand at the end of the list, and
/// older peers read nothing else.
pub open spec fn wifi_lan_socket(addresses: Seq<pb::ServiceAddressView>) -> upi::WifiLanSocketView {
    let ipv4 = addresses.len() > 0 && addresses.last().ip_address->0.len() == 4;
    upi::WifiLanSocketView {
        ip_address: if ipv4 {
            addresses.last().ip_address
        } else {
            None
        },
        wifi_port: if ipv4 {
            addresses.last().port
        } else {
            None
        },
        address_candidates: addresses,
    }
}

/// An offer of a socket on the local network.
pub open spec fn wifi_lan_path(addresses: Seq<pb::ServiceAddressView>) -> bwu::UpgradePathInfoView {
    bwu::UpgradePathInfoView {
        medium: Some(upi::Medium::WifiLan.value()),
        supports_client_introduction_ack: Some(true),
        wifi_lan_socket: Some(wifi_lan_socket(addresses)),
        ..bwu::UpgradePathInfoView::unset()
    }
}

/// Builds a BWU `UPGRADE_PATH_AVAILABLE` for `WIFI_LAN`.
pub fn for_bwu_wifi_lan_path_available(addresses: &[ServiceAddress]) -> (r: Vec<u8>)
    ensures
        r@ == path_available_bytes(wifi_lan_path(wire::seq_view(addresses@))),
{
    let mut socket = upi::WifiLanSocket::default();
    if addresses.len() > 0 {
        let last_address = &addresses[addresses.len() - 1];
        if last_address.address.len() == 4 {
            socket.ip_address = Some(
                vstd::slice::slice_to_vec(last_address.address.as_slice()),
            );
            socket.wifi_port = Some(last_address.port);
        }
    }
    let mut candidates: Vec<pb::ServiceAddress> = Vec::new();
    let mut i: usize = 0;
    while i < addresses.len()
        invariant
            i <= addresses@.len(),
            candidates@.len() == i,
            forall|j: int| 0 <= j < i ==> (#[trigger] candidates@[j])@ == addresses@[j]@,
        decreases addresses@.len() - i,
    {
        candidates.push(service_address_to_proto(&addresses[i]));
        i = i + 1;
    }
    assert(wire::seq_view(candidates@) =~= wire::seq_view(addresses@));
    socket.address_candidates = candidates;
    bwu_upgrade_path_available(
        bwu::UpgradePathInfo {
            medium: Some(upi::Medium::WifiLan.value()),
            supports_client_introduction_ack: Some(true),
            wifi_lan_socket: Some(socket),
            ..Default::default()
        },
    )
}

/// The path of an offer over AWDL.
pub open spec fn awdl_path(
    service_name: Seq<char>,
    service_type: Seq<char>,
    password: Seq<char>,
    supports_disabling_encryption: bool,
) -> bwu::UpgradePathInfoView {
    bwu::UpgradePathInfoView {
        medium: Some(upi::Medium::Awdl.value()),
        supports_client_introduction_ack: Some(true),
        supports_disabling_encryption: Some(supports_disabling_encryption),
        awdl_credentials: Some(
            upi::AwdlCredentialsView {
                service_name: Some(service_name),
                service_type: Some(service_type),
                password: Some(password),
            },
        ),
        ..bwu::UpgradePathInfoView::unset()
    }
}

/// Builds a BWU `UPGRADE_PATH_AVAILABLE` for `AWDL`.
pub fn for_bwu_awdl_path_available(
    service_name: &str,
    service_type: &str,
    password: &str,
    supports_disabling_encryption: bool,
) -> (r: Vec<u8>)
    ensures
        r@ == path_available_bytes(
            awdl_path(service_name@, service_type@, password@, supports_disabling_encryption),
        ),
{
    let creds = upi::AwdlCredentials {
        service_name: Some(service_name.to_owned()),
        service_type: Some(service_type.to_owned()),
        password: Some(password.to_owned()),
    };
    bwu_upgrade_path_available(
        bwu::UpgradePathInfo {
            medium: Some(upi::Medium::Awdl.value()),
            supports_client_introduction_ack: Some(true),
            supports_disabling_encryption: Some(supports_disabling_encryption),
            awdl_credentials: Some(creds),
            ..Default::default()
        },
    )
}

/// The path of an offer over Wi-Fi Aware.
pub open spec fn wifi_aware_path(
    service_id: Seq<char>,
    service_info: Seq<u8>,
    password: Seq<char>,
    supports_disabling_encryption: bool,
) -> bwu::UpgradePathInfoView {
    bwu::UpgradePathInfoView {
        medium: Some(upi::Medium::WifiAware.value()),
        supports_client_introduction_ack: Some(true),
        supports_disabling_encryption: Some(supports_disabling_encryption),
        wifi_aware_credentials: Some(
            upi::WifiAwareCredentialsView {
                service_id: Some(service_id),
                service_info: Some(service_info),
                password: unless_empty(password),
            },
        ),
        ..bwu::UpgradePathInfoView::unset()
    }
}

/// Builds a BWU `UPGRADE_PATH_AVAILABLE` for `WIFI_AWARE`. An empty password is
/// left out.
pub fn for_bwu_wifi_aware_path_available(
    service_id: &str,
    service_info: &[u8],
    password: &str,
    supports_disabling_encryption: bool,
) -> (r: Vec<u8>)
    ensures
        r@ == path_available_bytes(
            wifi_aware_path(
                service_id@,
                service_info@,
                password@,
                supports_disabling_encryption,
            ),
        ),
{
    let creds = upi::WifiAwareCredentials {
        service_id: Some(service_id.to_owned()),
        service_info: Some(vstd::slice::slice_to_vec(service_info)),
        password: non_empty(password),
    };
    bwu_upgrade_path_available(
        bwu::UpgradePathInfo {
            medium: Some(upi::Medium::WifiAware.value()),
            supports_client_introduction_ack: Some(true),
            supports_disabling_encryption: Some(supports_disabling_encryption),
            wifi_aware_credentials: Some(creds),
            ..Default::default()
        },
    )
}

fn non_empty(s: &str) -> (r: Option<String>)
    ensures
        wire::opt_view(r) == unless_empty(s@),
{
    if s.is_empty() {
        None
    } else {
        Some(s.to_owned())
    }
}

/// An offer of a Wi-Fi Direct group.
pub open spec fn wifi_direct_path(
    ssid: Seq<char>,
    password: Seq<char>,
    port: i32,
    frequency: i32,
    supports_disabling_encryption: bool,
    gateway: Seq<char>,
    device_name: Seq<char>,
    pin: Seq<char>,
) -> bwu::UpgradePathInfoView {
    bwu::UpgradePathInfoView {
        medium: Some(upi::Medium::WifiDirect.value()),
        supports_client_introduction_ack: Some(true),
        supports_disabling_encryption: Some(supports_disabling_encryption),
        wifi_direct_credentials: Some(
            upi::WifiDirectCredentialsView {
                ssid: Some(ssid),
                password: Some(password),
                port: Some(port),
                frequency: Some(frequency),
                gateway: Some(gateway),
                device_name: Some(device_name),
                pin: Some(pin),
                ..upi::WifiDirectCredentialsView::unset()
            },
        ),
        ..bwu::UpgradePathInfoView::unset()
    }
}

/// Builds a BWU `UPGRADE_PATH_AVAILABLE` for `WIFI_DIRECT`.
pub fn for_bwu_wifi_direct_path_available(
    ssid: &str,
    password: &str,
    port: i32,
    frequency: i32,
    supports_disabling_encryption: bool,
    gateway: &str,
    device_name: &str,
    pin: &str,
) -> (r: Vec<u8>)
    ensures
        r@ == path_available_bytes(
            wifi_direct_path(
                ssid@,
                password@,
                port,
                frequency,
                supports_disabling_encryption,
                gateway@,
                device_name@,
                pin@,
            ),
        ),
{
    let creds = upi::WifiDirectCredentials {
        ssid: Some(ssid.to_owned()),
        password: Some(password.to_owned()),
        port: Some(port),
        frequency: Some(frequency),
        gateway: Some(gateway.to_owned()),
        device_name: Some(device_name.to_owned()),
        pin: Some(pin.to_owned()),
        ..Default::default()
    };
    bwu_upgrade_path_available(
        bwu::UpgradePathInfo {
            medium: Some(upi::Medium::WifiDirect.value()),
            supports_client_introduction_ack: Some(true),
            supports_disabling_encryption: Some(supports_disabling_encryption),
            wifi_direct_credentials: Some(creds),
            ..Default::default()
        },
    )
}

/// An offer of a Bluetooth service.
pub open spec fn bluetooth_path(
    service_id: Seq<char>,
    mac_address: Seq<char>,
) -> bwu::UpgradePathInfoView {
    bwu::UpgradePathInfoView {
        medium: Some(upi::Medium::Bluetooth.value()),
        supports_client_introduction_ack: Some(true),
        bluetooth_credentials: Some(
            upi::BluetoothCredentialsView {
                service_name: Some(service_id),
                mac_address: Some(mac_address),
            },
        ),
        ..bwu::UpgradePathInfoView::unset()
    }
}

/// Builds a BWU `UPGRADE_PATH_AVAILABLE` for `BLUETOOTH`.
pub fn for_bwu_bluetooth_path_available(service_id: &str, mac_address: &str) -> (r: Vec<u8>)
    ensures
        r@ == path_available_bytes(bluetooth_path(service_id@, mac_address@)),
{
    let creds = upi::BluetoothCredentials {
        service_name: Some(service_id.to_owned()),
        mac_address: Some(mac_address.to_owned()),
    };
    bwu_upgrade_path_available(
        bwu::UpgradePathInfo {
            medium: Some(upi::Medium::Bluetooth.value()),
            supports_client_introduction_ack: Some(true),
            bluetooth_credentials: Some(creds),
            ..Default::default()
        },
    )
}

/// An offer of a WebRTC peer.
pub open spec fn web_rtc_path(
    peer_id: Seq<char>,
    location_hint: pb::LocationHintView,
) -> bwu::UpgradePathInfoView {
    bwu::UpgradePathInfoView {
        medium: Some(upi::Medium::WebRtc.value()),
        supports_client_introduction_ack: Some(true),
        web_rtc_credentials: Some(
            upi::WebRtcCredentialsView {
                peer_id: Some(peer_id),
                location_hint: Some(location_hint),
            },
        ),
        ..bwu::UpgradePathInfoView::unset()
    }
}

/// Builds a BWU `UPGRADE_PATH_AVAILABLE` for `WEB_RTC`.
pub fn for_bwu_webrtc_path_available(peer_id: &str, location_hint: pb::LocationHint) -> (r: Vec<
    u8,
>)
    ensures
        r@ == path_available_bytes(web_rtc_path(peer_id@, location_hint@)),
{
    let creds = upi::WebRtcCredentials {
        peer_id: Some(peer_id.to_owned()),
        location_hint: Some(location_hint),
    };
    bwu_upgrade_path_available(
        bwu::UpgradePathInfo {
            medium: Some(upi::Medium::WebRtc.value()),
            supports_client_introduction_ack: Some(true),
            web_rtc_credentials: Some(creds),
            ..Default::default()
        },
    )
}

/// The bytes of a failure to take an upgrade path.
pub open spec fn failure_bytes(info: bwu::UpgradePathInfoView) -> Seq<u8> {
    negotiation_bytes(
        pb::BandwidthUpgradeNegotiationFrameView {
            event_type: Some(bwu::EventType::UpgradeFailure.value()),
            upgrade_path_info: Some(info),
            ..pb::BandwidthUpgradeNegotiationFrameView::unset()
        },
    )
}

/// Builds a BWU `UPGRADE_FAILURE` carrying the failed upgrade path.
pub fn for_bwu_failure(info: bwu::UpgradePathInfo) -> (r: Vec<u8>)
    ensures
        r@ == failure_bytes(info@),
{
    negotiation(
        pb::BandwidthUpgradeNegotiationFrame {
            event_type: Some(bwu::EventType::UpgradeFailure.value()),
            upgrade_path_info: Some(info),
            ..Default::default()
        },
    )
}

/// The bytes of a step that carries nothing but its type.
pub open spec fn event_bytes(event: bwu::EventType) -> Seq<u8> {
    negotiation_bytes(
        pb::BandwidthUpgradeNegotiationFrameView {
            event_type: Some(event.value()),
            ..pb::BandwidthUpgradeNegotiationFrameView::unset()
        },
    )
}

fn bare_event(event: bwu::EventType) -> (r: Vec<u8>)
    ensures
        r@ == event_bytes(event),
{
    negotiation(
        pb::BandwidthUpgradeNegotiationFrame {
            event_type: Some(event.value()),
            ..Default::default()
        },
    )
}

/// Builds a BWU `LAST_WRITE_TO_PRIOR_CHANNEL`.
pub fn for_bwu_last_write() -> (r: Vec<u8>)
    ensures
        r@ == event_bytes(bwu::EventType::LastWriteToPriorChannel),
{
    bare_event(bwu::EventType::LastWriteToPriorChannel)
}

/// Builds a BWU `SAFE_TO_CLOSE_PRIOR_CHANNEL`.
pub fn for_bwu_safe_to_close() -> (r: Vec<u8>)
    ensures
        r@ == event_bytes(bwu::EventType::SafeToClosePriorChannel),
{
    bare_event(bwu::EventType::SafeToClosePriorChannel)
}

/// The bytes of an introduction. An empty last endpoint id is left out.
pub open spec fn introduction_bytes(
    endpoint_id: Seq<char>,
    last_endpoint_id: Seq<char>,
    supports_disabling_encryption: bool,
) -> Seq<u8> {
    negotiation_bytes(
        pb::BandwidthUpgradeNegotiationFrameView {
            event_type: Some(bwu::EventType::ClientIntroduction.value()),
            client_introduction: Some(
                bwu::ClientIntroductionView {
                    endpoint_id: Some(endpoint_id),
                    supports_disabling_encryption: Some(supports_disabling_encryption),
                    last_endpoint_id: unless_empty(last_endpoint_id),
                },
            ),
            ..pb::BandwidthUpgradeNegotiationFrameView::unset()
        },
    )
}

/// Builds a BWU `CLIENT_INTRODUCTION`.
pub fn for_bwu_introduction(
    endpoint_id: &str,
    last_endpoint_id: &str,
    supports_disabling_encryption: bool,
) -> (r: Vec<u8>)
    ensures
        r@ == introduction_bytes(endpoint_id@, last_endpoint_id@, supports_disabling_encryption),
{
    let intro = bwu::ClientIntroduction {
        endpoint_id: Some(endpoint_id.to_owned()),
        supports_disabling_encryption: Some(supports_disabling_encryption),
        last_endpoint_id: non_empty(last_endpoint_id),
    };
    negotiation(
        pb::BandwidthUpgradeNegotiationFrame {
            event_type: Some(bwu::EventType::ClientIntroduction.value()),
            client_introduction: Some(intro),
            ..Default::default()
        },
    )
}

/// Builds a BWU `CLIENT_INTRODUCTION_ACK`.
pub fn for_bwu_introduction_ack() -> (r: Vec<u8>)
    ensures
        r@ == event_bytes(bwu::EventType::ClientIntroductionAck),
{
    bare_event(bwu::EventType::ClientIntroductionAck)
}

/// The step that asks for an upgrade.
pub open spec fn path_request(
    medium: Medium,
    mediums: Seq<Medium>,
    medium_role: pb::MediumRole,
) -> pb::BandwidthUpgradeNegotiationFrameView {
    pb::BandwidthUpgradeNegotiationFrameView {
        event_type: Some(bwu::EventType::UpgradePathRequest.value()),
        upgrade_path_info: Some(
            bwu::UpgradePathInfoView {
                medium: Some(upgrade_path_number(medium)),
                upgrade_path_request: Some(
                    upi::UpgradePathRequestView {
                        mediums: Seq::new(
                            mediums.len(),
                            |i: int| upgrade_path_number(mediums[i]),
                        ),
                        medium_meta_data: Some(
                            pb::MediumMetadataView {
                                medium_role: Some(medium_role),
                                ..pb::MediumMetadataView::unset()
                            },
                        ),
                    },
                ),
                ..bwu::UpgradePathInfoView::unset()
            },
        ),
        ..pb::BandwidthUpgradeNegotiationFrameView::unset()
    }
}

/// Builds a BWU `UPGRADE_PATH_REQUEST`.
pub fn for_bwu_path_request(
    medium: Medium,
    mediums: &[Medium],
    medium_role: pb::MediumRole,
) -> (r: Vec<u8>)
    ensures
        r@ == negotiation_bytes(path_request(medium, mediums@, medium_role)),
{
    let mut numbers: Vec<i32> = Vec::new();
    let mut i: usize = 0;
    while i < mediums.len()
        invariant
            i <= mediums@.len(),
            numbers@.len() == i,
            forall|j: int|
                0 <= j < i ==> #[trigger] numbers@[j] == upgrade_path_number(mediums@[j]),
        decreases mediums@.len() - i,
    {
        numbers.push(medium_to_upgrade_path_info_medium(mediums[i]).value());
        i = i + 1;
    }
    assert(numbers@ =~= Seq::new(mediums@.len(), |i: int| upgrade_path_number(mediums@[i])));
    let request = upi::UpgradePathRequest {
        mediums: numbers,
        medium_meta_data: Some(
            pb::MediumMetadata { medium_role: Some(medium_role), ..Default::default() },
        ),
    };
    let info = bwu::UpgradePathInfo {
        medium: Some(medium_to_upgrade_path_info_medium(medium).value()),
        upgrade_path_request: Some(request),
        ..Default::default()
    };
    negotiation(
        pb::BandwidthUpgradeNegotiationFrame {
            event_type: Some(bwu::EventType::UpgradePathRequest.value()),
            upgrade_path_info: Some(info),
            ..Default::default()
        },
    )
}

/// The bytes of a `KEEP_ALIVE`.
pub open spec fn keep_alive_bytes(keep_alive: pb::KeepAliveFrame) -> Seq<u8> {
    frame_bytes(
        pb::V1FrameView {
            type_: Some(pb::v1_frame::FrameType::KeepAlive.value()),
            keep_alive: Some(keep_alive),
            ..pb::V1FrameView::unset()
        },
    )
}

/// A `KEEP_ALIVE` that tells whether it is an answer, and its place in a row.
pub open spec fn keep_alive_ack(ack: bool, seq_num: u32) -> pb::KeepAliveFrame {
    pb::KeepAliveFrame { ack: Some(ack), seq_num: Some(seq_num) }
}

/// Builds an empty `KEEP_ALIVE`.
pub fn for_keep_alive() -> (r: Vec<u8>)
    ensures
        r@ == keep_alive_bytes(pb::KeepAliveFrame::unset()),
{
    encode_v1(
        pb::V1Frame {
            type_: Some(pb::v1_frame::FrameType::KeepAlive.value()),
            keep_alive: Some(pb::KeepAliveFrame::default()),
            ..Default::default()
        },
    )
}

/// Builds a `KEEP_ALIVE` carrying an ack flag and sequence number.
pub fn for_keep_alive_ack(ack: bool, seq_num: u32) -> (r: Vec<u8>)
    ensures
        r@ == keep_alive_bytes(keep_alive_ack(ack, seq_num)),
{
    encode_v1(
        pb::V1Frame {
            type_: Some(pb::v1_frame::FrameType::KeepAlive.value()),
            keep_alive: Some(pb::KeepAliveFrame { ack: Some(ack), seq_num: Some(seq_num) }),
            ..Default::default()
        },
    )
}

/// The bytes of a `DISCONNECTION`.
pub open spec fn disconnection_bytes(request: bool, ack: bool) -> Seq<u8> {
    frame_bytes(
        pb::V1FrameView {
            type_: Some(pb::v1_frame::FrameType::Disconnection.value()),
            disconnection: Some(
                pb::DisconnectionFrame {
                    request_safe_to_disconnect: Some(request),
                    ack_safe_to_disconnect: Some(ack),
                },
            ),
            ..pb::V1FrameView::unset()
        },
    )
}

/// Builds a `DISCONNECTION`.
pub fn for_disconnection(
    request_safe_to_disconnect: bool,
    ack_safe_to_disconnect: bool,
) -> (r: Vec<u8>)
    ensures
        r@ == disconnection_bytes(request_safe_to_disconnect, ack_safe_to_disconnect),
{
    encode_v1(
        pb::V1Frame {
            type_: Some(pb::v1_frame::FrameType::Disconnection.value()),
            disconnection: Some(
                pb::DisconnectionFrame {
                    request_safe_to_disconnect: Some(request_safe_to_disconnect),
                    ack_safe_to_disconnect: Some(ack_safe_to_disconnect),
                },
            ),
            ..Default::default()
        },
    )
}

// ---------------------------------------------------------------------------
// Mediums and their numbers on the wire
// ---------------------------------------------------------------------------

/// The medium with the same number.
pub open spec fn spec_medium_to_connection_request_medium(medium: Medium) -> pb::connection_request_frame::Medium {
    pb::connection_request_frame::Medium::from_i32(medium.value())->0
}

/// A medium, as a connection request names it.
#[verifier::when_used_as_spec(spec_medium_to_connection_request_medium)]
pub fn medium_to_connection_request_medium(medium: Medium) -> (r: pb::connection_request_frame::Medium)
    ensures
        r == spec_medium_to_connection_request_medium(medium),
{
    match medium {
        Medium::Mdns => pb::connection_request_frame::Medium::Mdns,
        Medium::Bluetooth => pb::connection_request_frame::Medium::Bluetooth,
        Medium::WifiHotspot => pb::connection_request_frame::Medium::WifiHotspot,
        Medium::Ble => pb::connection_request_frame::Medium::Ble,
        Medium::BleL2cap => pb::connection_request_frame::Medium::BleL2cap,
        Medium::WifiLan => pb::connection_request_frame::Medium::WifiLan,
        Medium::WifiAware => pb::connection_request_frame::Medium::WifiAware,
        Medium::Nfc => pb::connection_request_frame::Medium::Nfc,
        Medium::WifiDirect => pb::connection_request_frame::Medium::WifiDirect,
        Medium::WebRtc => pb::connection_request_frame::Medium::WebRtc,
        Medium::WebRtcNonCellular => pb::connection_request_frame::Medium::WebRtcNonCellular,
        Medium::Usb => pb::connection_request_frame::Medium::Usb,
        Medium::Awdl => pb::connection_request_frame::Medium::Awdl,
        Medium::UnknownMedium => pb::connection_request_frame::Medium::UnknownMedium,
    }
}

/// The medium with the same number.
pub open spec fn spec_connection_request_medium_to_medium(medium: pb::connection_request_frame::Medium) -> Medium {
    Medium::from_i32(medium.value())->0
}

/// The medium that a connection request names.
#[verifier::when_used_as_spec(spec_connection_request_medium_to_medium)]
pub fn connection_request_medium_to_medium(medium: pb::connection_request_frame::Medium) -> (r: Medium)
    ensures
        r == spec_connection_request_medium_to_medium(medium),
{
    match medium {
        pb::connection_request_frame::Medium::Mdns => Medium::Mdns,
        pb::connection_request_frame::Medium::Bluetooth => Medium::Bluetooth,
        pb::connection_request_frame::Medium::WifiHotspot => Medium::WifiHotspot,
        pb::connection_request_frame::Medium::Ble => Medium::Ble,
        pb::connection_request_frame::Medium::BleL2cap => Medium::BleL2cap,
        pb::connection_request_frame::Medium::WifiLan => Medium::WifiLan,
        pb::connection_request_frame::Medium::WifiAware => Medium::WifiAware,
        pb::connection_request_frame::Medium::Nfc => Medium::Nfc,
        pb::connection_request_frame::Medium::WifiDirect => Medium::WifiDirect,
        pb::connection_request_frame::Medium::WebRtc => Medium::WebRtc,
        pb::connection_request_frame::Medium::WebRtcNonCellular => Medium::WebRtcNonCellular,
        pb::connection_request_frame::Medium::Usb => Medium::Usb,
        pb::connection_request_frame::Medium::Awdl => Medium::Awdl,
        pb::connection_request_frame::Medium::UnknownMedium => Medium::UnknownMedium,
    }
}

/// The number of a medium in an upgrade path: its own, but BLE L2CAP is unknown
/// there.
pub open spec fn upgrade_path_number(medium: Medium) -> i32 {
    if medium is BleL2cap {
        upi::Medium::UnknownMedium.value()
    } else {
        medium.value()
    }
}

/// The medium with the same number, but for BLE L2CAP.
pub open spec fn spec_medium_to_upgrade_path_info_medium(medium: Medium) -> upi::Medium {
    upi::Medium::from_i32(upgrade_path_number(medium))->0
}

/// A medium, as an upgrade path names it.
#[verifier::when_used_as_spec(spec_medium_to_upgrade_path_info_medium)]
pub fn medium_to_upgrade_path_info_medium(medium: Medium) -> (r: upi::Medium)
    ensures
        r == spec_medium_to_upgrade_path_info_medium(medium),
{
    match medium {
        Medium::Mdns => upi::Medium::Mdns,
        Medium::Bluetooth => upi::Medium::Bluetooth,
        Medium::WifiHotspot => upi::Medium::WifiHotspot,
        Medium::Ble => upi::Medium::Ble,
        Medium::WifiLan => upi::Medium::WifiLan,
        Medium::WifiAware => upi::Medium::WifiAware,
        Medium::Nfc => upi::Medium::Nfc,
        Medium::WifiDirect => upi::Medium::WifiDirect,
        Medium::WebRtc => upi::Medium::WebRtc,
        Medium::WebRtcNonCellular => upi::Medium::WebRtcNonCellular,
        Medium::Usb => upi::Medium::Usb,
        Medium::Awdl => upi::Medium::Awdl,
        Medium::BleL2cap | Medium::UnknownMedium => upi::Medium::UnknownMedium,
    }
}

/// The medium with the same number.
pub open spec fn spec_upgrade_path_info_medium_to_medium(medium: upi::Medium) -> Medium {
    Medium::from_i32(medium.value())->0
}

/// The medium that an upgrade path names.
#[verifier::when_used_as_spec(spec_upgrade_path_info_medium_to_medium)]
pub fn upgrade_path_info_medium_to_medium(medium: upi::Medium) -> (r: Medium)
    ensures
        r == spec_upgrade_path_info_medium_to_medium(medium),
{
    match medium {
        upi::Medium::Mdns => Medium::Mdns,
        upi::Medium::Bluetooth => Medium::Bluetooth,
        upi::Medium::WifiHotspot => Medium::WifiHotspot,
        upi::Medium::Ble => Medium::Ble,
        upi::Medium::WifiLan => Medium::WifiLan,
        upi::Medium::WifiAware => Medium::WifiAware,
        upi::Medium::Nfc => Medium::Nfc,
        upi::Medium::WifiDirect => Medium::WifiDirect,
        upi::Medium::WebRtc => Medium::WebRtc,
        upi::Medium::WebRtcNonCellular => Medium::WebRtcNonCellular,
        upi::Medium::Usb => Medium::Usb,
        upi::Medium::Awdl => Medium::Awdl,
        upi::Medium::UnknownMedium => Medium::UnknownMedium,
    }
}

/// Naming a medium in a connection request and reading it back gives the medium.
pub proof fn lemma_connection_request_medium_round_trip(medium: Medium)
    ensures
        connection_request_medium_to_medium(medium_to_connection_request_medium(medium)) == medium,
{
}

/// Naming a medium in an upgrade path and reading it back gives the medium, but for
/// BLE L2CAP, which upgrade paths do not know.
pub proof fn lemma_upgrade_path_medium_round_trip(medium: Medium)
    ensures
        upgrade_path_info_medium_to_medium(medium_to_upgrade_path_info_medium(medium)) == if medium
            is BleL2cap {
            Medium::UnknownMedium
        } else {
            medium
        },
{
}

/// The medium that a number in a connection request stands for; a number that it
/// does not know stands for the unknown medium.
pub open spec fn requested_medium(number: i32) -> Medium {
    match Medium::from_i32(number) {
        Some(m) => m,
        None => Medium::UnknownMedium,
    }
}

/// The mediums that a connection request names.
pub fn connection_request_mediums_to_mediums(frame: &pb::ConnectionRequestFrame) -> (r: Vec<Medium>)
    ensures
        r@ == Seq::new(frame@.mediums.len(), |i: int| requested_medium(frame@.mediums[i])),
{
    let mut mediums: Vec<Medium> = Vec::new();
    let mut i: usize = 0;
    while i < frame.mediums.len()
        invariant
            i <= frame.mediums@.len(),
            mediums@.len() == i,
            forall|j: int|
                0 <= j < i ==> #[trigger] mediums@[j] == requested_medium(frame.mediums@[j]),
        decreases frame.mediums@.len() - i,
    {
        let m = match pb::connection_request_frame::Medium::from_i32(frame.mediums[i]) {
            Some(m) => m,
            None => pb::connection_request_frame::Medium::UnknownMedium,
        };
        mediums.push(connection_request_medium_to_medium(m));
        i = i + 1;
    }
    assert(mediums@ =~= Seq::new(
        frame@.mediums.len(),
        |i: int| requested_medium(frame@.mediums[i]),
    ));
    mediums
}

/// How a way to join a Wi-Fi Direct group is named in the metadata. Joining by a
/// PIN is not named.
pub open spec fn wfd_auth_number(auth: WifiDirectAuthType) -> pb::medium_metadata::WifiDirectAuthType {
    match auth {
        WifiDirectAuthType::WifiDirectWithPassword =>
            pb::medium_metadata::WifiDirectAuthType::WifiDirectWithPassword,
        WifiDirectAuthType::WifiDirectWithDeviceName =>
            pb::medium_metadata::WifiDirectAuthType::WifiDirectWithDeviceName,
        _ => pb::medium_metadata::WifiDirectAuthType::WifiDirectTypeUnknown,
    }
}

/// How a way to join a Wi-Fi Direct group is named in the metadata.
pub fn wfd_auth_type_to_medium_metadata_wfd_auth_type(
    wifi_direct_auth_type: WifiDirectAuthType,
) -> (r: pb::medium_metadata::WifiDirectAuthType)
    ensures
        r == wfd_auth_number(wifi_direct_auth_type),
{
    match wifi_direct_auth_type {
        WifiDirectAuthType::WifiDirectWithPassword =>
            pb::medium_metadata::WifiDirectAuthType::WifiDirectWithPassword,
        WifiDirectAuthType::WifiDirectWithDeviceName =>
            pb::medium_metadata::WifiDirectAuthType::WifiDirectWithDeviceName,
        _ => pb::medium_metadata::WifiDirectAuthType::WifiDirectTypeUnknown,
    }
}

/// The way to join a Wi-Fi Direct group that the metadata names.
pub open spec fn wfd_auth_named(named: pb::medium_metadata::WifiDirectAuthType) -> WifiDirectAuthType {
    match named {
        pb::medium_metadata::WifiDirectAuthType::WifiDirectWithPassword =>
            WifiDirectAuthType::WifiDirectWithPassword,
        pb::medium_metadata::WifiDirectAuthType::WifiDirectWithDeviceName =>
            WifiDirectAuthType::WifiDirectWithDeviceName,
        _ => WifiDirectAuthType::WifiDirectTypeUnknown,
    }
}

/// The way to join a Wi-Fi Direct group that the metadata names.
pub fn medium_metadata_wfd_auth_type_to_wfd_auth_type(
    wifi_direct_auth_type: pb::medium_metadata::WifiDirectAuthType,
) -> (r: WifiDirectAuthType)
    ensures
        r == wfd_auth_named(wifi_direct_auth_type),
{
    match wifi_direct_auth_type {
        pb::medium_metadata::WifiDirectAuthType::WifiDirectWithPassword =>
            WifiDirectAuthType::WifiDirectWithPassword,
        pb::medium_metadata::WifiDirectAuthType::WifiDirectWithDeviceName =>
            WifiDirectAuthType::WifiDirectWithDeviceName,
        _ => WifiDirectAuthType::WifiDirectTypeUnknown,
    }
}

/// A way to join a Wi-Fi Direct group that the metadata can name is read back as it
/// was named; joining by a PIN is read back as unknown.
pub proof fn lemma_wfd_auth_round_trip(auth: WifiDirectAuthType)
    ensures
        wfd_auth_named(wfd_auth_number(auth)) == if auth is WifiDirectWithPin {
            WifiDirectAuthType::WifiDirectTypeUnknown
        } else {
            auth
        },
{
}

/// The way to join a Wi-Fi Direct group that a number in the metadata stands for.
pub open spec fn wfd_auth_of(number: i32) -> WifiDirectAuthType {
    match pb::medium_metadata::WifiDirectAuthType::from_i32(number) {
        Some(named) => wfd_auth_named(named),
        None => WifiDirectAuthType::WifiDirectTypeUnknown,
    }
}

/// The ways to join a Wi-Fi Direct group that the metadata names.
pub fn medium_metadata_wfd_auth_types_to_wfd_auth_types(
    medium_metadata: &pb::MediumMetadata,
) -> (r: Vec<WifiDirectAuthType>)
    ensures
        r@ == Seq::new(
            medium_metadata@.supported_wifi_direct_auth_types.len(),
            |i: int| wfd_auth_of(medium_metadata@.supported_wifi_direct_auth_types[i]),
        ),
{
    let mut types: Vec<WifiDirectAuthType> = Vec::new();
    let mut i: usize = 0;
    while i < medium_metadata.supported_wifi_direct_auth_types.len()
        invariant
            i <= medium_metadata.supported_wifi_direct_auth_types@.len(),
            types@.len() == i,
            forall|j: int|
                0 <= j < i ==> #[trigger] types@[j] == wfd_auth_of(
                    medium_metadata.supported_wifi_direct_auth_types@[j],
                ),
        decreases medium_metadata.supported_wifi_direct_auth_types@.len() - i,
    {
        let t = match pb::medium_metadata::WifiDirectAuthType::from_i32(
            medium_metadata.supported_wifi_direct_auth_types[i],
        ) {
            Some(t) => t,
            None => pb::medium_metadata::WifiDirectAuthType::WifiDirectTypeUnknown,
        };
        types.push(medium_metadata_wfd_auth_type_to_wfd_auth_type(t));
        i = i + 1;
    }
    assert(types@ =~= Seq::new(
        medium_metadata@.supported_wifi_direct_auth_types.len(),
        |i: int| wfd_auth_of(medium_metadata@.supported_wifi_direct_auth_types[i]),
    ));
    types
}

} // verus!

//! What a peer reads in a frame, with the numbers that stand for it on the wire, and which
//! frames are valid.

use vstd::prelude::*;
use vstd::utf8::*;

use crate::frames;
use crate::frames::{ConnectionInfo, Exception};
use crate::mediums::{Medium, WifiDirectAuthType};
use crate::message;
use crate::proto as pb;
use crate::proto::bandwidth_upgrade_negotiation_frame as bwu;
use crate::proto::bandwidth_upgrade_negotiation_frame::upgrade_path_info as upi;
use crate::proto::payload_transfer_frame as ptf;
use crate::text;
use crate::validator;

verus! {

// ---------------------------------------------------------------------------
// Parsing
// ---------------------------------------------------------------------------

/// What bytes are parsed as is what they decode to, if that is valid. Bytes that do not
/// decode are malformed, and a failure is never a success.
pub proof fn lemma_parsed(bytes: Seq<u8>)
    ensures
        match frames::parsed(bytes) {
            Ok(frame) => message::decoded::<pb::OfflineFrame>(bytes) == Some(frame)
                && validator::verdict(frame) == Exception::Success,
            Err(e) => e != Exception::Success && match message::decoded::<pb::OfflineFrame>(bytes) {
                Some(frame) => e == validator::verdict(frame),
                None => e == Exception::InvalidProtocolBuffer,
            },
        },
{
    reveal(frames::parsed);
}

/// A valid frame is parsed from its bytes as it was, and one that is not is not.
pub proof fn lemma_parsed_encoded(frame: pb::OfflineFrameView)
    requires
        message::encoded::<pb::OfflineFrame>(frame).len() <= u64::MAX,
    ensures
        frames::parsed(message::encoded::<pb::OfflineFrame>(frame)) == if validator::verdict(frame)
            == Exception::Success {
            Ok::<pb::OfflineFrameView, Exception>(frame)
        } else {
            Err(validator::verdict(frame))
        },
{
    reveal(frames::parsed);
    message::lemma_decoded_encoded::<pb::OfflineFrame>(frame);
}

/// What a valid frame of version 1 and of the type with the given number holds.
pub open spec fn content(bytes: Seq<u8>, number: i32) -> Option<pb::V1FrameView> {
    match frames::parsed(bytes) {
        Ok(frame) => match frame.v1 {
            Some(v1) => if frame.version == Some(1i32) && v1.type_ == Some(number) {
                Some(v1)
            } else {
                None
            },
            None => None,
        },
        Err(_) => None,
    }
}

/// A frame holds one sub-frame at most.
pub open spec fn holds_only(v1: pb::V1FrameView, number: i32) -> bool {
    &&& number != 1 ==> v1.connection_request is None
    &&& number != 2 ==> v1.connection_response is None
    &&& number != 3 ==> v1.payload_transfer is None
    &&& number != 4 ==> v1.bandwidth_upgrade_negotiation is None
    &&& number != 5 ==> v1.keep_alive is None
    &&& number != 6 ==> v1.disconnection is None
    &&& v1.paired_key_encryption is None
    &&& v1.authentication_message is None
    &&& v1.authentication_result is None
    &&& v1.auto_resume is None
    &&& v1.auto_reconnect is None
    &&& v1.bandwidth_upgrade_retry is None
}

/// The type of a frame goes by its number, and only in version 1.
pub proof fn lemma_frame_types(frame: pb::OfflineFrameView, v1: pb::V1FrameView)
    requires
        frame.v1 == Some(v1),
    ensures
        ({
            let t = frames::frame_type_of(frame);
            let first = frame.version == Some(1i32);
            &&& t is ConnectionRequest <==> first && v1.type_ == Some(1i32)
            &&& t is ConnectionResponse <==> first && v1.type_ == Some(2i32)
            &&& t is PayloadTransfer <==> first && v1.type_ == Some(3i32)
            &&& t is BandwidthUpgradeNegotiation <==> first && v1.type_ == Some(4i32)
            &&& t is KeepAlive <==> first && v1.type_ == Some(5i32)
            &&& t is Disconnection <==> first && v1.type_ == Some(6i32)
            &&& t is PairedKeyEncryption <==> first && v1.type_ == Some(7i32)
            &&& !first || v1.type_ is None ==> t is UnknownFrameType
        }),
        frames::frame_type_of(pb::OfflineFrameView { v1: None, ..frame }) is UnknownFrameType,
{
}

// ---------------------------------------------------------------------------
// Connecting
// ---------------------------------------------------------------------------

/// The number of a medium.
pub open spec fn medium_number(medium: Medium) -> i32 {
    match medium {
        Medium::UnknownMedium => 0,
        Medium::Mdns => 1,
        Medium::Bluetooth => 2,
        Medium::WifiHotspot => 3,
        Medium::Ble => 4,
        Medium::WifiLan => 5,
        Medium::WifiAware => 6,
        Medium::Nfc => 7,
        Medium::WifiDirect => 8,
        Medium::WebRtc => 9,
        Medium::BleL2cap => 10,
        Medium::Usb => 11,
        Medium::WebRtcNonCellular => 12,
        Medium::Awdl => 13,
    }
}

/// What a connection request says of the device that asks, whoever it is.
pub open spec fn says(
    request: pb::ConnectionRequestFrameView,
    info: ConnectionInfo,
    name: Seq<char>,
) -> bool {
    &&& request.endpoint_name == Some(name)
    &&& request.endpoint_info == Some(info.local_endpoint_info@)
    &&& request.nonce == Some(info.nonce)
    &&& request.mediums.len() == info.supported_mediums@.len()
    &&& forall|i: int|
        0 <= i < request.mediums.len() ==> #[trigger] request.mediums[i] == medium_number(
            info.supported_mediums@[i],
        )
    &&& request.medium_metadata matches Some(metadata)
    &&& metadata.supports_5_ghz == Some(info.supports_5ghz)
    &&& metadata.ap_frequency == Some(info.ap_frequency)
    &&& metadata.bssid == (if info.bssid@.len() > 0 {
        Some(info.bssid@)
    } else {
        None
    })
    &&& request.keep_alive_interval_millis == (if info.keep_alive_interval_millis > 0 {
        Some(info.keep_alive_interval_millis)
    } else {
        None
    })
    &&& request.keep_alive_timeout_millis == (if info.keep_alive_timeout_millis > 0 {
        Some(info.keep_alive_timeout_millis)
    } else {
        None
    })
    &&& request.handshake_data is None
    &&& request.device_type is None
    &&& request.device_info is None
    &&& request.connection_mode is None
    &&& request.location_hint is None
    &&& metadata.ip_address is None
    &&& metadata.supports_6_ghz is None
    &&& metadata.mobile_radio is None
    &&& metadata.available_channels is None
    &&& metadata.wifi_direct_cli_usable_channels is None
    &&& metadata.wifi_lan_usable_channels is None
    &&& metadata.wifi_aware_usable_channels is None
    &&& metadata.wifi_hotspot_sta_usable_channels is None
}

/// What a Connections device asks with is what the peer reads, if it names its endpoint.
/// The device goes along if it has an id, and the role only where roles can be switched.
pub proof fn lemma_connections_request_read(
    device: Option<pb::ConnectionsDeviceView>,
    info: ConnectionInfo,
    enable_dynamic_role_switch: bool,
    name: Seq<char>,
)
    requires
        info.local_endpoint_id@.len() > 0,
        info.local_endpoint_info@.len() > 0,
        name.len() > 0,
        frames::connection_request_bytes(
            frames::connections_request(device, info, enable_dynamic_role_switch, name),
        ).len() <= u64::MAX,
    ensures
        ({
            let bytes = frames::connection_request_bytes(
                frames::connections_request(device, info, enable_dynamic_role_switch, name),
            );
            &&& content(bytes, 1) matches Some(v1)
            &&& holds_only(v1, 1)
            &&& v1.connection_request matches Some(request)
            &&& says(request, info, name)
            &&& request.endpoint_id == Some(info.local_endpoint_id@)
            &&& request.medium_metadata->0.medium_role == (if enable_dynamic_role_switch {
                info.medium_role
            } else {
                None
            })
            &&& request.medium_metadata->0.supported_wifi_direct_auth_types.len()
                == info.supported_wifi_direct_auth_types@.len()
            &&& forall|i: int|
                0 <= i < info.supported_wifi_direct_auth_types@.len()
                    ==> #[trigger] request.medium_metadata->0.supported_wifi_direct_auth_types[i]
                    == (match info.supported_wifi_direct_auth_types@[i] {
                    WifiDirectAuthType::WifiDirectWithPassword => 1i32,
                    WifiDirectAuthType::WifiDirectWithDeviceName => 3i32,
                    _ => 0i32,
                })
            &&& match device {
                Some(d) => if d.endpoint_id is Some {
                    request.device == Some(
                        pb::connection_request_frame::DeviceView::ConnectionsDevice(d),
                    )
                } else {
                    request.device is None
                },
                None => request.device is None,
            }
        }),
{
    let request = frames::connections_request(device, info, enable_dynamic_role_switch, name);
    frames::lemma_parsed_frame_bytes(
        pb::V1FrameView {
            type_: Some(pb::v1_frame::FrameType::ConnectionRequest.value()),
            connection_request: Some(request),
            ..pb::V1FrameView::unset()
        },
    );
}

/// What a Presence device asks with is what the peer reads, if the device has an id.
pub proof fn lemma_presence_request_read(
    device: pb::PresenceDeviceView,
    info: ConnectionInfo,
    name: Seq<char>,
)
    requires
        info.local_endpoint_id@.len() > 0,
        info.local_endpoint_info@.len() > 0,
        name.len() > 0,
        device.endpoint_id matches Some(id) && id.len() > 0,
        frames::connection_request_bytes(frames::presence_request(device, info, name)).len()
            <= u64::MAX,
    ensures
        ({
            let bytes = frames::connection_request_bytes(
                frames::presence_request(device, info, name),
            );
            &&& content(bytes, 1) matches Some(v1)
            &&& holds_only(v1, 1)
            &&& v1.connection_request matches Some(request)
            &&& says(request, info, name)
            &&& request.endpoint_id == device.endpoint_id
            &&& request.medium_metadata->0.medium_role is None
            &&& request.medium_metadata->0.supported_wifi_direct_auth_types.len() == 0
            &&& request.device == Some(
                pb::connection_request_frame::DeviceView::PresenceDevice(device),
            )
        }),
{
    let request = frames::presence_request(device, info, name);
    frames::lemma_parsed_frame_bytes(
        pb::V1FrameView {
            type_: Some(pb::v1_frame::FrameType::ConnectionRequest.value()),
            connection_request: Some(request),
            ..pb::V1FrameView::unset()
        },
    );
}

/// A request leaves out the id and the name of an endpoint that has none, and is then not
/// valid. Instead of an id that its device does not have, a Presence device gives an empty
/// one.
pub proof fn lemma_unnamed_request(
    connections: Option<pb::ConnectionsDeviceView>,
    presence: pb::PresenceDeviceView,
    info: ConnectionInfo,
    enable_dynamic_role_switch: bool,
    name: Seq<char>,
)
    ensures
        ({
            let request = frames::connections_request(
                connections,
                info,
                enable_dynamic_role_switch,
                name,
            );
            let present = frames::presence_request(presence, info, name);
            &&& info.local_endpoint_id@.len() == 0 ==> request.endpoint_id is None
                && present.endpoint_id is None
            &&& info.local_endpoint_info@.len() == 0 ==> {
                &&& request.endpoint_name is None
                &&& request.endpoint_info is None
                &&& present.endpoint_name is None
                &&& present.endpoint_info is None
            }
            &&& info.local_endpoint_id@.len() > 0 && presence.endpoint_id is None ==> (
            present.endpoint_id matches Some(id) && id.len() == 0)
            &&& info.local_endpoint_id@.len() > 0 && presence.endpoint_id is Some
                ==> present.endpoint_id == presence.endpoint_id
        }),
        info.local_endpoint_id@.len() == 0 || info.local_endpoint_info@.len() == 0 ==> {
            let bytes = frames::connection_request_bytes(
                frames::connections_request(connections, info, enable_dynamic_role_switch, name),
            );
            bytes.len() <= u64::MAX ==> frames::parsed(bytes) == Err::<
                pb::OfflineFrameView,
                Exception,
            >(Exception::InvalidProtocolBuffer)
        },
{
    let request = frames::connections_request(connections, info, enable_dynamic_role_switch, name);
    let v1 = pb::V1FrameView {
        type_: Some(pb::v1_frame::FrameType::ConnectionRequest.value()),
        connection_request: Some(request),
        ..pb::V1FrameView::unset()
    };
    if frames::connection_request_bytes(request).len() <= u64::MAX {
        lemma_parsed_encoded(frames::version_1(v1));
    }
}

/// A response with the status 0 is read as an acceptance, whose number is 1, and a response
/// with any other status as a rejection, whose number is 2. The status goes along.
pub proof fn lemma_response_read(
    status: i32,
    os_info: pb::OsInfo,
    safe_to_disconnect_version: i32,
)
    requires
        frames::connection_response_bytes(status, os_info, safe_to_disconnect_version).len()
            <= u64::MAX,
    ensures
        ({
            let bytes = frames::connection_response_bytes(
                status,
                os_info,
                safe_to_disconnect_version,
            );
            &&& content(bytes, 2) matches Some(v1)
            &&& holds_only(v1, 2)
            &&& v1.connection_response matches Some(response)
            &&& status == 0 ==> response.response == Some(1i32)
            &&& status != 0 ==> response.response == Some(2i32)
            &&& response.status == Some(status)
            &&& response.os_info == Some(os_info)
            &&& response.safe_to_disconnect_version == Some(safe_to_disconnect_version)
            &&& response.multiplex_socket_bitmask == Some(0i32)
            &&& response.handshake_data is None
        }),
{
    frames::lemma_parsed_frame_bytes(
        pb::V1FrameView {
            type_: Some(pb::v1_frame::FrameType::ConnectionResponse.value()),
            connection_response: Some(
                frames::connection_response(status, os_info, safe_to_disconnect_version),
            ),
            ..pb::V1FrameView::unset()
        },
    );
}

/// A connection request is valid if and only if it names its endpoint, by an id and a name
/// that are not empty. Whatever else it holds does not matter.
pub proof fn lemma_connection_request_valid(
    frame: pb::OfflineFrameView,
    v1: pb::V1FrameView,
    request: pb::ConnectionRequestFrameView,
)
    requires
        frame.version == Some(1i32),
        frame.v1 == Some(v1),
        v1.type_ == Some(1i32),
        v1.connection_request == Some(request),
    ensures
        validator::verdict(frame) == (if request.endpoint_id is Some
            && request.endpoint_id->0.len() > 0 && request.endpoint_name is Some
            && request.endpoint_name->0.len() > 0 {
            Exception::Success
        } else {
            Exception::InvalidProtocolBuffer
        }),
{
}

/// A frame whose type calls for a sub-frame must hold it. An answer to a connection request
/// is valid whatever it says, and so is a frame of a type that calls for none.
pub proof fn lemma_sub_frames_called_for(frame: pb::OfflineFrameView, v1: pb::V1FrameView)
    requires
        frame.v1 == Some(v1),
    ensures
        frame.version == Some(1i32) ==> {
            &&& v1.type_ == Some(1i32) && v1.connection_request is None ==> validator::verdict(
                frame,
            ) == Exception::InvalidProtocolBuffer
            &&& v1.type_ == Some(2i32) ==> validator::verdict(frame) == (
            if v1.connection_response is Some {
                Exception::Success
            } else {
                Exception::InvalidProtocolBuffer
            })
            &&& v1.type_ == Some(3i32) && v1.payload_transfer is None ==> validator::verdict(frame)
                == Exception::InvalidProtocolBuffer
            &&& v1.type_ == Some(4i32) && v1.bandwidth_upgrade_negotiation is None
                ==> validator::verdict(frame) == Exception::InvalidProtocolBuffer
        },
        frame.version != Some(1i32) || v1.type_ is None || !(1 <= v1.type_->0 <= 4)
            ==> validator::verdict(frame) == Exception::Success,
        validator::verdict(pb::OfflineFrameView { v1: None, ..frame }) == Exception::Success,
{
}

// ---------------------------------------------------------------------------
// Payloads
// ---------------------------------------------------------------------------

/// The frame is a payload transfer.
pub open spec fn transfers(frame: pb::OfflineFrameView, t: pb::PayloadTransferFrameView) -> bool {
    &&& frame.version == Some(1i32)
    &&& frame.v1 matches Some(v1)
    &&& v1.type_ == Some(3i32)
    &&& v1.payload_transfer == Some(t)
}

/// The size of a payload is not negative, or -1, which stands for a size that is not known.
pub open spec fn has_size(header: ptf::PayloadHeaderView) -> bool {
    header.total_size matches Some(size) && size >= -1
}

/// The offset is one within a payload with this header.
pub open spec fn lies_within(offset: Option<i64>, header: ptf::PayloadHeaderView) -> bool {
    offset matches Some(at) && at >= 0 && (header.total_size == Some(-1i64) || at
        <= header.total_size->0)
}

/// The name of a file leads nowhere else: it holds no `:`, `/` or `\`.
pub open spec fn stays_put(name: Seq<char>) -> bool {
    !name.contains(':') && !name.contains('/') && !name.contains('\\')
}

/// Two dots in a row lead upwards.
pub open spec fn leads_upwards(folder: Seq<char>) -> bool {
    exists|i: int| 0 <= i < folder.len() - 1 && #[trigger] folder[i] == '.' && folder[i + 1] == '.'
}

/// The header of a file whose names no peer may use.
pub open spec fn ill_named(header: ptf::PayloadHeaderView) -> bool {
    &&& header.type_ == Some(2i32)
    &&& {
        ||| header.file_name matches Some(name) && !stays_put(name)
        ||| header.parent_folder matches Some(folder) && (folder.contains(':') || leads_upwards(
            folder,
        ))
    }
}

proof fn lemma_occurs_char(s: Seq<char>, pattern: Seq<char>, c: char)
    requires
        pattern == seq![c],
    ensures
        text::occurs(s, pattern) == s.contains(c),
{
    if text::occurs(s, pattern) {
        let at = choose|at: int| text::occurs_at(s, pattern, at);
        assert(s.subrange(at, at + 1)[0] == c);
        assert(s[at] == c);
    }
    if s.contains(c) {
        let i = s.index_of(c);
        assert(s.subrange(i, i + 1) =~= pattern);
        assert(text::occurs_at(s, pattern, i));
    }
}

proof fn lemma_occurs_dots(s: Seq<char>)
    ensures
        text::occurs(s, ".."@) == leads_upwards(s),
{
    reveal_strlit("..");
    let pattern = ".."@;
    if text::occurs(s, pattern) {
        let at = choose|at: int| text::occurs_at(s, pattern, at);
        let part = s.subrange(at, at + 2);
        assert(part[0] == '.' && part[1] == '.');
        assert(s[at] == '.' && s[at + 1] == '.');
    }
    if leads_upwards(s) {
        let i = choose|i: int|
            0 <= i < s.len() - 1 && #[trigger] s[i] == '.' && s[i + 1] == '.';
        assert(s.subrange(i, i + 2) =~= pattern);
        assert(text::occurs_at(s, pattern, i));
    }
}

proof fn lemma_names(header: ptf::PayloadHeaderView)
    ensures
        validator::illegally_named(header) == ill_named(header),
{
    reveal_strlit(":");
    reveal_strlit("/");
    reveal_strlit("\\");
    if let Some(name) = header.file_name {
        assert(":"@ =~= seq![':']);
        assert("/"@ =~= seq!['/']);
        assert("\\"@ =~= seq!['\\']);
        lemma_occurs_char(name, ":"@, ':');
        lemma_occurs_char(name, "/"@, '/');
        lemma_occurs_char(name, "\\"@, '\\');
    }
    if let Some(folder) = header.parent_folder {
        assert(":"@ =~= seq![':']);
        lemma_occurs_char(folder, ":"@, ':');
        lemma_occurs_dots(folder);
    }
}

/// A piece of a payload is valid whatever its flags are, if it has flags, a body, and an
/// offset within the payload. Only the last piece, whose lowest flag is set, may come
/// without a body.
pub proof fn lemma_chunk_valid(
    frame: pb::OfflineFrameView,
    t: pb::PayloadTransferFrameView,
    header: ptf::PayloadHeaderView,
    chunk: ptf::PayloadChunkView,
)
    requires
        transfers(frame, t),
        t.packet_type == Some(1i32),
        t.payload_header == Some(header),
        t.payload_chunk == Some(chunk),
        has_size(header),
        !ill_named(header),
    ensures
        chunk.flags is Some && chunk.body is Some && lies_within(chunk.offset, header)
            ==> validator::verdict(frame) == Exception::Success,
        chunk.flags is Some && chunk.body is None && lies_within(chunk.offset, header)
            ==> validator::verdict(frame) == (if chunk.flags->0 & 1i32 != 0 {
            Exception::Success
        } else {
            Exception::InvalidProtocolBuffer
        }),
        chunk.flags is None || !lies_within(chunk.offset, header) ==> validator::verdict(frame)
            == Exception::InvalidProtocolBuffer,
{
    lemma_names(header);
}

/// A control message is valid if and only if its offset lies within the payload.
pub proof fn lemma_control_valid(
    frame: pb::OfflineFrameView,
    t: pb::PayloadTransferFrameView,
    header: ptf::PayloadHeaderView,
    control: ptf::ControlMessage,
)
    requires
        transfers(frame, t),
        t.packet_type == Some(2i32),
        t.payload_header == Some(header),
        t.control_message == Some(control),
        has_size(header),
        !ill_named(header),
    ensures
        validator::verdict(frame) == (if lies_within(control.offset, header) {
            Exception::Success
        } else {
            Exception::InvalidProtocolBuffer
        }),
{
    lemma_names(header);
}

/// A payload transfer needs a header. An acknowledgement, whose type is 3, needs nothing
/// more. Any other needs a size, and a file a name that leads nowhere else; and then a
/// type, and what goes with it.
pub proof fn lemma_transfer_valid(frame: pb::OfflineFrameView, t: pb::PayloadTransferFrameView)
    requires
        transfers(frame, t),
    ensures
        t.payload_header is None ==> validator::verdict(frame) == Exception::InvalidProtocolBuffer,
        t.payload_header is Some && t.packet_type == Some(3i32) ==> validator::verdict(frame)
            == Exception::Success,
        t.payload_header is Some && t.packet_type != Some(3i32) ==> {
            let header = t.payload_header->0;
            &&& !has_size(header) ==> validator::verdict(frame) == Exception::InvalidProtocolBuffer
            &&& has_size(header) && ill_named(header) ==> validator::verdict(frame)
                == Exception::IllegalCharacters
            &&& has_size(header) && !ill_named(header) ==> {
                &&& t.packet_type is None ==> validator::verdict(frame)
                    == Exception::InvalidProtocolBuffer
                &&& t.packet_type == Some(1i32) && t.payload_chunk is None ==> validator::verdict(
                    frame,
                ) == Exception::InvalidProtocolBuffer
                &&& t.packet_type == Some(2i32) && t.control_message is None ==> validator::verdict(
                    frame,
                ) == Exception::InvalidProtocolBuffer
                &&& t.packet_type is Some && !(1 <= t.packet_type->0 <= 2) ==> validator::verdict(
                    frame,
                ) == Exception::Success
            }
        },
{
    if let Some(header) = t.payload_header {
        lemma_names(header);
    }
}

/// A piece of a payload that is valid is read as it was sent, whatever its flags are.
pub proof fn lemma_chunk_read(header: ptf::PayloadHeaderView, chunk: ptf::PayloadChunkView)
    requires
        has_size(header),
        !ill_named(header),
        chunk.flags is Some,
        chunk.body is Some || chunk.flags->0 & 1i32 != 0,
        lies_within(chunk.offset, header),
        frames::payload_transfer_bytes(frames::data_transfer(header, chunk)).len() <= u64::MAX,
    ensures
        ({
            let bytes = frames::payload_transfer_bytes(frames::data_transfer(header, chunk));
            &&& content(bytes, 3) matches Some(v1)
            &&& holds_only(v1, 3)
            &&& v1.payload_transfer matches Some(t)
            &&& t.packet_type == Some(1i32)
            &&& t.payload_header == Some(header)
            &&& t.payload_chunk == Some(chunk)
            &&& t.control_message is None
        }),
{
    let t = frames::data_transfer(header, chunk);
    let v1 = pb::V1FrameView {
        type_: Some(pb::v1_frame::FrameType::PayloadTransfer.value()),
        payload_transfer: Some(t),
        ..pb::V1FrameView::unset()
    };
    lemma_chunk_valid(frames::version_1(v1), t, header, chunk);
    frames::lemma_parsed_frame_bytes(v1);
}

/// A control message that is valid is read as it was sent.
pub proof fn lemma_control_read(header: ptf::PayloadHeaderView, control: ptf::ControlMessage)
    requires
        has_size(header),
        !ill_named(header),
        lies_within(control.offset, header),
        frames::payload_transfer_bytes(frames::control_transfer(header, control)).len() <= u64::MAX,
    ensures
        ({
            let bytes = frames::payload_transfer_bytes(frames::control_transfer(header, control));
            &&& content(bytes, 3) matches Some(v1)
            &&& holds_only(v1, 3)
            &&& v1.payload_transfer matches Some(t)
            &&& t.packet_type == Some(2i32)
            &&& t.payload_header == Some(header)
            &&& t.payload_chunk is None
            &&& t.control_message == Some(control)
        }),
{
    let t = frames::control_transfer(header, control);
    let v1 = pb::V1FrameView {
        type_: Some(pb::v1_frame::FrameType::PayloadTransfer.value()),
        payload_transfer: Some(t),
        ..pb::V1FrameView::unset()
    };
    lemma_control_valid(frames::version_1(v1), t, header, control);
    frames::lemma_parsed_frame_bytes(v1);
}

/// An acknowledgement of a payload is read as one, of that payload.
pub proof fn lemma_payload_ack_read(payload_id: i64)
    requires
        frames::payload_transfer_bytes(frames::payload_ack_transfer(payload_id)).len() <= u64::MAX,
    ensures
        ({
            let bytes = frames::payload_transfer_bytes(frames::payload_ack_transfer(payload_id));
            &&& content(bytes, 3) matches Some(v1)
            &&& v1.payload_transfer matches Some(t)
            &&& t.packet_type == Some(3i32)
            &&& t.payload_header matches Some(header)
            &&& header.id == Some(payload_id)
            &&& header.total_size == Some(-1i64)
            &&& header.type_ is None
            &&& header.is_sensitive is None
            &&& header.file_name is None
            &&& header.parent_folder is None
            &&& t.payload_chunk is None
            &&& t.control_message is None
        }),
{
    let t = frames::payload_ack_transfer(payload_id);
    let v1 = pb::V1FrameView {
        type_: Some(pb::v1_frame::FrameType::PayloadTransfer.value()),
        payload_transfer: Some(t),
        ..pb::V1FrameView::unset()
    };
    frames::lemma_parsed_frame_bytes(v1);
}

// ---------------------------------------------------------------------------
// Keeping alive and ending
// ---------------------------------------------------------------------------

/// A keep-alive is read as it was sent.
pub proof fn lemma_keep_alive_read(keep_alive: pb::KeepAliveFrame)
    requires
        frames::keep_alive_bytes(keep_alive).len() <= u64::MAX,
    ensures
        content(frames::keep_alive_bytes(keep_alive), 5) matches Some(v1) && holds_only(v1, 5)
            && v1.keep_alive == Some(keep_alive),
{
    frames::lemma_parsed_frame_bytes(
        pb::V1FrameView {
            type_: Some(pb::v1_frame::FrameType::KeepAlive.value()),
            keep_alive: Some(keep_alive),
            ..pb::V1FrameView::unset()
        },
    );
}

/// A keep-alive that answers is read with its flag and its number, and an empty one without.
pub proof fn lemma_keep_alive_ack_read(ack: bool, seq_num: u32)
    requires
        frames::keep_alive_bytes(frames::keep_alive_ack(ack, seq_num)).len() <= u64::MAX,
    ensures
        ({
            &&& content(frames::keep_alive_bytes(frames::keep_alive_ack(ack, seq_num)), 5) matches
                Some(v1)
            &&& v1.keep_alive matches Some(keep_alive)
            &&& keep_alive.ack == Some(ack)
            &&& keep_alive.seq_num == Some(seq_num)
        }),
        pb::KeepAliveFrame::unset().ack is None,
        pb::KeepAliveFrame::unset().seq_num is None,
{
    lemma_keep_alive_read(frames::keep_alive_ack(ack, seq_num));
}

/// A disconnection is read as one, with the request and the acknowledgement that it was
/// sent with.
pub proof fn lemma_disconnection_read(request: bool, ack: bool)
    requires
        frames::disconnection_bytes(request, ack).len() <= u64::MAX,
    ensures
        ({
            &&& content(frames::disconnection_bytes(request, ack), 6) matches Some(v1)
            &&& holds_only(v1, 6)
            &&& v1.disconnection matches Some(disconnection)
            &&& disconnection.request_safe_to_disconnect == Some(request)
            &&& disconnection.ack_safe_to_disconnect == Some(ack)
        }),
{
    frames::lemma_parsed_frame_bytes(
        pb::V1FrameView {
            type_: Some(pb::v1_frame::FrameType::Disconnection.value()),
            disconnection: Some(
                pb::DisconnectionFrame {
                    request_safe_to_disconnect: Some(request),
                    ack_safe_to_disconnect: Some(ack),
                },
            ),
            ..pb::V1FrameView::unset()
        },
    );
}

// ---------------------------------------------------------------------------
// Upgrades
// ---------------------------------------------------------------------------

/// The frame is a step of an upgrade.
pub open spec fn negotiates(
    frame: pb::OfflineFrameView,
    step: pb::BandwidthUpgradeNegotiationFrameView,
) -> bool {
    &&& frame.version == Some(1i32)
    &&& frame.v1 matches Some(v1)
    &&& v1.type_ == Some(4i32)
    &&& v1.bandwidth_upgrade_negotiation == Some(step)
}

/// A step of an upgrade is one of seven events, or none in particular. An introduction,
/// whose number is 4, names an endpoint; an offer, whose number is 1, holds a path; the
/// others need nothing.
pub proof fn lemma_step_valid(
    frame: pb::OfflineFrameView,
    step: pb::BandwidthUpgradeNegotiationFrameView,
)
    requires
        negotiates(frame, step),
    ensures
        step.event_type is None || !(0 <= step.event_type->0 <= 7) ==> validator::verdict(frame)
            == Exception::InvalidProtocolBuffer,
        step.event_type == Some(1i32) && step.upgrade_path_info is None ==> validator::verdict(frame)
            == Exception::InvalidProtocolBuffer,
        step.event_type == Some(4i32) ==> validator::verdict(frame) == (
        if step.client_introduction is Some && step.client_introduction->0.endpoint_id is Some {
            Exception::Success
        } else {
            Exception::InvalidProtocolBuffer
        }),
        step.event_type matches Some(n) && 0 <= n <= 7 && n != 1 && n != 4 ==> validator::verdict(
            frame,
        ) == Exception::Success,
{
}

/// The frame offers an upgrade path.
pub open spec fn offers(frame: pb::OfflineFrameView, info: bwu::UpgradePathInfoView) -> bool {
    &&& frame.version == Some(1i32)
    &&& frame.v1 matches Some(v1)
    &&& v1.type_ == Some(4i32)
    &&& v1.bandwidth_upgrade_negotiation matches Some(step)
    &&& step.event_type == Some(1i32)
    &&& step.upgrade_path_info == Some(info)
}

/// A string of some bytes, whose number lies within the bounds.
pub open spec fn is_long(s: Option<Seq<char>>, least: int, most: int) -> bool {
    s matches Some(s) && least <= encode_utf8(s).len() <= most
}

/// An IPv4 or IPv6 address with a port.
pub open spec fn is_address(address: pb::ServiceAddressView) -> bool {
    &&& address.ip_address matches Some(ip)
    &&& ip.len() == 4 || ip.len() == 16
    &&& address.port is Some
}

/// An offer names its medium, by a number that stands for one.
pub proof fn lemma_offer_names_medium(frame: pb::OfflineFrameView, info: bwu::UpgradePathInfoView)
    requires
        offers(frame, info),
    ensures
        info.medium is None || !(0 <= info.medium->0 <= 13) || info.medium == Some(10i32)
            ==> validator::verdict(frame) == Exception::InvalidProtocolBuffer,
        info.medium == Some(0i32) || info.medium == Some(1i32) || info.medium == Some(4i32)
            || info.medium == Some(7i32) || info.medium == Some(11i32) || info.medium == Some(12i32)
            || info.medium == Some(13i32) ==> validator::verdict(frame) == Exception::Success,
        info.medium == Some(2i32) && info.bluetooth_credentials is None || info.medium == Some(3i32)
            && info.wifi_hotspot_credentials is None || info.medium == Some(5i32)
            && info.wifi_lan_socket is None || info.medium == Some(6i32)
            && info.wifi_aware_credentials is None || info.medium == Some(8i32)
            && info.wifi_direct_credentials is None || info.medium == Some(9i32)
            && info.web_rtc_credentials is None ==> validator::verdict(frame)
            == Exception::InvalidProtocolBuffer,
{
}

/// An offer of a hotspot is valid if and only if it has a name, a password of 8 to 63
/// bytes, and an address: a gateway, which is an IPv4 address unless it is empty, or
/// candidates; and every candidate is an address with a port.
pub proof fn lemma_hotspot_offer_valid(
    frame: pb::OfflineFrameView,
    info: bwu::UpgradePathInfoView,
    creds: upi::WifiHotspotCredentialsView,
)
    requires
        offers(frame, info),
        info.medium == Some(3i32),
        info.wifi_hotspot_credentials == Some(creds),
    ensures
        validator::verdict(frame) == (if {
            &&& creds.ssid is Some
            &&& is_long(creds.password, 8, 63)
            &&& match creds.gateway {
                Some(gateway) => gateway.len() == 0 || text::is_dotted(gateway),
                None => creds.address_candidates.len() > 0,
            }
            &&& forall|i: int|
                0 <= i < creds.address_candidates.len() ==> is_address(
                    #[trigger] creds.address_candidates[i],
                )
        } {
            Exception::Success
        } else {
            Exception::InvalidProtocolBuffer
        }),
{
    lemma_unset_gateway();
    assert forall|i: int| 0 <= i < creds.address_candidates.len() implies is_address(
        #[trigger] creds.address_candidates[i],
    ) == validator::candidate_ok(creds.address_candidates[i]) by {}
}

proof fn lemma_unset_gateway()
    ensures
        text::is_dotted("0.0.0.0"@),
{
    reveal_strlit("0.0.0.0");
    let zero: Seq<u8> = seq![0u8, 0, 0, 0];
    text::lemma_address_round_trip(zero);
    assert(text::dotted(zero) =~= "0.0.0.0"@);
}

/// An offer of a socket is valid if and only if it has an address and a port above 0, or
/// candidates.
pub proof fn lemma_socket_offer_valid(
    frame: pb::OfflineFrameView,
    info: bwu::UpgradePathInfoView,
    socket: upi::WifiLanSocketView,
)
    requires
        offers(frame, info),
        info.medium == Some(5i32),
        info.wifi_lan_socket == Some(socket),
    ensures
        validator::verdict(frame) == (if socket.address_candidates.len() > 0 || socket.ip_address
            is Some && socket.wifi_port is Some && socket.wifi_port->0 > 0 {
            Exception::Success
        } else {
            Exception::InvalidProtocolBuffer
        }),
{
}

/// An offer of a Wi-Fi Direct group is valid if and only if its frequency is at least -1,
/// and it can be joined: by a name of at most 31 bytes, which is `DIRECT-`, two letters or
/// digits, and anything, with a password of 8 to 63 bytes; or by the name of a device of
/// at most 31 bytes with a PIN of at most 15 bytes.
pub proof fn lemma_direct_offer_valid(
    frame: pb::OfflineFrameView,
    info: bwu::UpgradePathInfoView,
    creds: upi::WifiDirectCredentialsView,
)
    requires
        offers(frame, info),
        info.medium == Some(8i32),
        info.wifi_direct_credentials == Some(creds),
    ensures
        validator::verdict(frame) == (if creds.frequency is Some && creds.frequency->0 >= -1 && (
        is_long(creds.ssid, 0, 31) && is_group_name(creds.ssid->0) && is_long(
            creds.password,
            8,
            63,
        ) || is_long(creds.device_name, 0, 31) && is_long(creds.pin, 0, 15)) {
            Exception::Success
        } else {
            Exception::InvalidProtocolBuffer
        }),
{
    if let Some(ssid) = creds.ssid {
        lemma_group_name(ssid);
    }
}

/// The name of a Wi-Fi Direct group.
pub open spec fn is_group_name(s: Seq<char>) -> bool {
    &&& s.len() >= 9
    &&& s[0] == 'D' && s[1] == 'I' && s[2] == 'R' && s[3] == 'E' && s[4] == 'C' && s[5] == 'T'
        && s[6] == '-'
    &&& '0' <= s[7] <= '9' || 'a' <= s[7] <= 'z' || 'A' <= s[7] <= 'Z'
    &&& '0' <= s[8] <= '9' || 'a' <= s[8] <= 'z' || 'A' <= s[8] <= 'Z'
}

proof fn lemma_group_name(s: Seq<char>)
    ensures
        validator::is_wifi_direct_ssid(s) == is_group_name(s),
{
    reveal_strlit("DIRECT-");
    let prefix = "DIRECT-"@;
    if s.len() >= 9 {
        let front = s.subrange(0, 7);
        assert(forall|i: int| 0 <= i < 7 ==> front[i] == s[i]);
        if is_group_name(s) {
            assert(front =~= prefix);
        } else if text::occurs_at(s, prefix, 0) {
            assert(front == prefix);
            assert(s[0] == prefix[0] && s[1] == prefix[1] && s[2] == prefix[2] && s[3] == prefix[3]
                && s[4] == prefix[4] && s[5] == prefix[5] && s[6] == prefix[6]);
        }
    }
}

/// Offers of Wi-Fi Aware, Bluetooth and WebRTC are valid if and only if they say how to
/// find the peer.
pub proof fn lemma_other_offers_valid(frame: pb::OfflineFrameView, info: bwu::UpgradePathInfoView)
    requires
        offers(frame, info),
    ensures
        info.medium == Some(6i32) && info.wifi_aware_credentials is Some ==> {
            let creds = info.wifi_aware_credentials->0;
            validator::verdict(frame) == (if creds.service_id is Some && creds.service_info is Some {
                Exception::Success
            } else {
                Exception::InvalidProtocolBuffer
            })
        },
        info.medium == Some(2i32) && info.bluetooth_credentials is Some ==> {
            let creds = info.bluetooth_credentials->0;
            validator::verdict(frame) == (if creds.service_name is Some && creds.mac_address is Some {
                Exception::Success
            } else {
                Exception::InvalidProtocolBuffer
            })
        },
        info.medium == Some(9i32) && info.web_rtc_credentials is Some ==> {
            let creds = info.web_rtc_credentials->0;
            validator::verdict(frame) == (if creds.peer_id is Some {
                Exception::Success
            } else {
                Exception::InvalidProtocolBuffer
            })
        },
{
}

/// The path that a peer reads in an offer.
pub open spec fn path_read(bytes: Seq<u8>) -> Option<bwu::UpgradePathInfoView> {
    match content(bytes, 4) {
        Some(v1) => match v1.bandwidth_upgrade_negotiation {
            Some(step) => if step.event_type == Some(1i32) && step.client_introduction is None {
                step.upgrade_path_info
            } else {
                None
            },
            None => None,
        },
        None => None,
    }
}

proof fn lemma_path_read(info: bwu::UpgradePathInfoView)
    requires
        validator::path_available_verdict(info).ok(),
        frames::path_available_bytes(info).len() <= u64::MAX,
    ensures
        path_read(frames::path_available_bytes(info)) == Some(info),
{
    let step = pb::BandwidthUpgradeNegotiationFrameView {
        event_type: Some(bwu::EventType::UpgradePathAvailable.value()),
        upgrade_path_info: Some(info),
        ..pb::BandwidthUpgradeNegotiationFrameView::unset()
    };
    frames::lemma_parsed_frame_bytes(
        pb::V1FrameView {
            type_: Some(pb::v1_frame::FrameType::BandwidthUpgradeNegotiation.value()),
            bandwidth_upgrade_negotiation: Some(step),
            ..pb::V1FrameView::unset()
        },
    );
}

/// An offer of a list of addresses holds them all, in that order. The last one stands alone
/// as well if it is an IPv4 address, and none does if it is not. The peer is asked to
/// confirm introductions.
pub proof fn lemma_socket_offer_read(addresses: Seq<pb::ServiceAddressView>)
    requires
        addresses.len() > 0,
        forall|i: int|
            0 <= i < addresses.len() ==> (#[trigger] addresses[i]).ip_address is Some
                && addresses[i].port is Some,
        frames::path_available_bytes(frames::wifi_lan_path(addresses)).len() <= u64::MAX,
    ensures
        ({
            let last = addresses[addresses.len() - 1];
            &&& path_read(
                frames::path_available_bytes(frames::wifi_lan_path(addresses)),
            ) matches Some(info)
            &&& info.medium == Some(5i32)
            &&& info.supports_client_introduction_ack == Some(true)
            &&& info.supports_disabling_encryption is None
            &&& info.wifi_lan_socket matches Some(socket)
            &&& socket.address_candidates == addresses
            &&& if last.ip_address->0.len() == 4 {
                socket.ip_address == last.ip_address && socket.wifi_port == last.port
            } else {
                socket.ip_address is None && socket.wifi_port is None
            }
        }),
{
    lemma_path_read(frames::wifi_lan_path(addresses));
}

/// An offer of a Wi-Fi Direct group says how to join it.
pub proof fn lemma_direct_offer_read(
    ssid: Seq<char>,
    password: Seq<char>,
    port: i32,
    frequency: i32,
    supports_disabling_encryption: bool,
    gateway: Seq<char>,
    device_name: Seq<char>,
    pin: Seq<char>,
)
    requires
        frequency >= -1,
        is_long(Some(ssid), 0, 31) && is_group_name(ssid) && is_long(Some(password), 8, 63)
            || is_long(Some(device_name), 0, 31) && is_long(Some(pin), 0, 15),
        frames::path_available_bytes(
            frames::wifi_direct_path(
                ssid,
                password,
                port,
                frequency,
                supports_disabling_encryption,
                gateway,
                device_name,
                pin,
            ),
        ).len() <= u64::MAX,
    ensures
        ({
            &&& path_read(
                frames::path_available_bytes(
                    frames::wifi_direct_path(
                        ssid,
                        password,
                        port,
                        frequency,
                        supports_disabling_encryption,
                        gateway,
                        device_name,
                        pin,
                    ),
                ),
            ) matches Some(info)
            &&& info.medium == Some(8i32)
            &&& info.supports_client_introduction_ack == Some(true)
            &&& info.supports_disabling_encryption == Some(supports_disabling_encryption)
            &&& info.wifi_direct_credentials matches Some(creds)
            &&& creds.ssid == Some(ssid)
            &&& creds.password == Some(password)
            &&& creds.port == Some(port)
            &&& creds.frequency == Some(frequency)
            &&& creds.gateway == Some(gateway)
            &&& creds.device_name == Some(device_name)
            &&& creds.pin == Some(pin)
        }),
{
    lemma_group_name(ssid);
    lemma_path_read(
        frames::wifi_direct_path(
            ssid,
            password,
            port,
            frequency,
            supports_disabling_encryption,
            gateway,
            device_name,
            pin,
        ),
    );
}

/// An offer of a Bluetooth service says where it is found.
pub proof fn lemma_bluetooth_offer_read(service_id: Seq<char>, mac_address: Seq<char>)
    requires
        frames::path_available_bytes(frames::bluetooth_path(service_id, mac_address)).len()
            <= u64::MAX,
    ensures
        ({
            &&& path_read(
                frames::path_available_bytes(frames::bluetooth_path(service_id, mac_address)),
            ) matches Some(info)
            &&& info.medium == Some(2i32)
            &&& info.supports_client_introduction_ack == Some(true)
            &&& info.bluetooth_credentials matches Some(creds)
            &&& creds.service_name == Some(service_id)
            &&& creds.mac_address == Some(mac_address)
        }),
{
    lemma_path_read(frames::bluetooth_path(service_id, mac_address));
}

/// An offer of a WebRTC peer says who it is.
pub proof fn lemma_web_rtc_offer_read(peer_id: Seq<char>, location_hint: pb::LocationHintView)
    requires
        frames::path_available_bytes(frames::web_rtc_path(peer_id, location_hint)).len()
            <= u64::MAX,
    ensures
        ({
            &&& path_read(
                frames::path_available_bytes(frames::web_rtc_path(peer_id, location_hint)),
            ) matches Some(info)
            &&& info.medium == Some(9i32)
            &&& info.supports_client_introduction_ack == Some(true)
            &&& info.web_rtc_credentials matches Some(creds)
            &&& creds.peer_id == Some(peer_id)
            &&& creds.location_hint == Some(location_hint)
        }),
{
    lemma_path_read(frames::web_rtc_path(peer_id, location_hint));
}

/// Any valid offer is read as it was made.
pub proof fn lemma_offer_read(info: bwu::UpgradePathInfoView)
    requires
        frames::path_available_bytes(info).len() <= u64::MAX,
        ({
            ||| info.medium == Some(13i32)
            ||| info.medium == Some(6i32) && info.wifi_aware_credentials is Some
                && info.wifi_aware_credentials->0.service_id is Some
                && info.wifi_aware_credentials->0.service_info is Some
            ||| info.medium == Some(3i32) && info.wifi_hotspot_credentials is Some
                && info.wifi_hotspot_credentials->0.ssid is Some && is_long(
                info.wifi_hotspot_credentials->0.password,
                8,
                63,
            ) && info.wifi_hotspot_credentials->0.gateway is Some && text::is_dotted(
                info.wifi_hotspot_credentials->0.gateway->0,
            ) && info.wifi_hotspot_credentials->0.address_candidates.len() == 0
        }),
    ensures
        path_read(frames::path_available_bytes(info)) == Some(info),
{
    lemma_path_read(info);
}

/// A number in a list of mediums of a request stands for the medium with that number, in a
/// connection request, and for an unknown one if there is none.
pub proof fn lemma_requested_mediums(medium: Medium, number: i32)
    ensures
        frames::requested_medium(medium_number(medium)) == medium,
        !(0 <= number <= 13) ==> frames::requested_medium(number) == Medium::UnknownMedium,
        frames::medium_to_connection_request_medium(medium).value() == medium_number(medium),
        frames::upgrade_path_number(medium) == (if medium == Medium::BleL2cap {
            0i32
        } else {
            medium_number(medium)
        }),
{
}

/// A number in the metadata stands for a way to join a Wi-Fi Direct group: 1 by a password, 3
/// by the name of a device. Any other is not known.
pub proof fn lemma_ways_to_join(number: i32)
    ensures
        frames::wfd_auth_of(number) == (if number == 1 {
            WifiDirectAuthType::WifiDirectWithPassword
        } else if number == 3 {
            WifiDirectAuthType::WifiDirectWithDeviceName
        } else {
            WifiDirectAuthType::WifiDirectTypeUnknown
        }),
{
}

/// A request for an upgrade is read as one: the medium that is asked for, the others that
/// will do, and the role. A medium that a path cannot name is not named.
pub proof fn lemma_path_request_read(
    medium: Medium,
    mediums: Seq<Medium>,
    medium_role: pb::MediumRole,
)
    requires
        frames::negotiation_bytes(frames::path_request(medium, mediums, medium_role)).len()
            <= u64::MAX,
    ensures
        ({
            let bytes = frames::negotiation_bytes(
                frames::path_request(medium, mediums, medium_role),
            );
            &&& content(bytes, 4) matches Some(v1)
            &&& holds_only(v1, 4)
            &&& v1.bandwidth_upgrade_negotiation matches Some(read)
            &&& read.event_type == Some(7i32)
            &&& read.client_introduction is None
            &&& read.upgrade_path_info matches Some(info)
            &&& info.medium == Some(
                if medium == Medium::BleL2cap {
                    0i32
                } else {
                    medium_number(medium)
                },
            )
            &&& info.upgrade_path_request matches Some(request)
            &&& request.mediums.len() == mediums.len()
            &&& forall|i: int|
                0 <= i < mediums.len() ==> #[trigger] request.mediums[i] == (if mediums[i]
                    == Medium::BleL2cap {
                    0i32
                } else {
                    medium_number(mediums[i])
                })
            &&& request.medium_meta_data matches Some(metadata)
            &&& metadata.medium_role == Some(medium_role)
        }),
{
    let step = frames::path_request(medium, mediums, medium_role);
    frames::lemma_parsed_frame_bytes(
        pb::V1FrameView {
            type_: Some(pb::v1_frame::FrameType::BandwidthUpgradeNegotiation.value()),
            bandwidth_upgrade_negotiation: Some(step),
            ..pb::V1FrameView::unset()
        },
    );
}

/// An offer of a hotspot says how to join it.
pub proof fn lemma_hotspot_offer_read(
    creds: upi::WifiHotspotCredentialsView,
    supports_disabling_encryption: bool,
)
    requires
        creds.ssid is Some,
        is_long(creds.password, 8, 63),
        creds.gateway matches Some(gateway) && text::is_dotted(gateway),
        forall|i: int|
            0 <= i < creds.address_candidates.len() ==> is_address(
                #[trigger] creds.address_candidates[i],
            ),
        frames::path_available_bytes(
            frames::wifi_hotspot_path(creds, supports_disabling_encryption),
        ).len() <= u64::MAX,
    ensures
        ({
            &&& path_read(
                frames::path_available_bytes(
                    frames::wifi_hotspot_path(creds, supports_disabling_encryption),
                ),
            ) matches Some(info)
            &&& info.medium == Some(3i32)
            &&& info.supports_client_introduction_ack == Some(true)
            &&& info.supports_disabling_encryption == Some(supports_disabling_encryption)
            &&& info.wifi_hotspot_credentials == Some(creds)
        }),
{
    assert forall|i: int| 0 <= i < creds.address_candidates.len() implies validator::candidate_ok(
        #[trigger] creds.address_candidates[i],
    ) by {
        assert(is_address(creds.address_candidates[i]));
    }
    lemma_path_read(frames::wifi_hotspot_path(creds, supports_disabling_encryption));
}

/// An offer over AWDL says how to find the peer.
pub proof fn lemma_awdl_offer_read(
    service_name: Seq<char>,
    service_type: Seq<char>,
    password: Seq<char>,
    supports_disabling_encryption: bool,
)
    requires
        frames::path_available_bytes(
            frames::awdl_path(service_name, service_type, password, supports_disabling_encryption),
        ).len() <= u64::MAX,
    ensures
        ({
            &&& path_read(
                frames::path_available_bytes(
                    frames::awdl_path(
                        service_name,
                        service_type,
                        password,
                        supports_disabling_encryption,
                    ),
                ),
            ) matches Some(info)
            &&& info.medium == Some(13i32)
            &&& info.supports_client_introduction_ack == Some(true)
            &&& info.supports_disabling_encryption == Some(supports_disabling_encryption)
            &&& info.awdl_credentials matches Some(creds)
            &&& creds.service_name == Some(service_name)
            &&& creds.service_type == Some(service_type)
            &&& creds.password == Some(password)
        }),
{
    lemma_path_read(
        frames::awdl_path(service_name, service_type, password, supports_disabling_encryption),
    );
}

/// An offer over Wi-Fi Aware says how to find the peer. An empty password is not told.
pub proof fn lemma_aware_offer_read(
    service_id: Seq<char>,
    service_info: Seq<u8>,
    password: Seq<char>,
    supports_disabling_encryption: bool,
)
    requires
        frames::path_available_bytes(
            frames::wifi_aware_path(
                service_id,
                service_info,
                password,
                supports_disabling_encryption,
            ),
        ).len() <= u64::MAX,
    ensures
        ({
            &&& path_read(
                frames::path_available_bytes(
                    frames::wifi_aware_path(
                        service_id,
                        service_info,
                        password,
                        supports_disabling_encryption,
                    ),
                ),
            ) matches Some(info)
            &&& info.medium == Some(6i32)
            &&& info.supports_client_introduction_ack == Some(true)
            &&& info.supports_disabling_encryption == Some(supports_disabling_encryption)
            &&& info.wifi_aware_credentials matches Some(creds)
            &&& creds.service_id == Some(service_id)
            &&& creds.service_info == Some(service_info)
            &&& creds.password == (if password.len() > 0 {
                Some(password)
            } else {
                None
            })
        }),
{
    lemma_path_read(
        frames::wifi_aware_path(service_id, service_info, password, supports_disabling_encryption),
    );
}

} // verus!

//! Validating parsed frames.
//!
//! A frame that decodes may still lack what its type calls for, or hold values
//! that no peer may send. [`ensure_valid_offline_frame`] tells.

use vstd::prelude::*;
use vstd::utf8::*;

use crate::frames;
use crate::frames::{get_frame_type, Exception, INDETERMINATE_SIZE};
use crate::proto as pb;
use crate::proto::bandwidth_upgrade_negotiation_frame as bwu;
use crate::proto::bandwidth_upgrade_negotiation_frame::upgrade_path_info as upi;
use crate::proto::payload_transfer_frame as ptf;
use crate::text;
use crate::wire;

verus! {

pub const WIFI_DIRECT_SSID_MAX_LENGTH: usize = 32;

pub const WIFI_PASSWORD_SSID_MIN_LENGTH: usize = 8;

pub const WIFI_PASSWORD_SSID_MAX_LENGTH: usize = 64;

pub const WIFI_DIRECT_PIN_MIN_LENGTH: usize = 0;

pub const WIFI_DIRECT_PIN_MAX_LENGTH: usize = 16;

/// The verdict on a frame that is either good or malformed.
pub open spec fn unless_malformed(good: bool) -> Exception {
    if good {
        Exception::Success
    } else {
        Exception::InvalidProtocolBuffer
    }
}

fn exception_unless(good: bool) -> (r: Exception)
    ensures
        r == unless_malformed(good),
{
    if good {
        Exception::Success
    } else {
        Exception::InvalidProtocolBuffer
    }
}

/// Whether `min <= value < max`.
pub fn within_range(value: usize, min: usize, max: usize) -> (r: bool)
    ensures
        r == (min <= value < max),
{
    value >= min && value < max
}

/// Whether a string is an IPv4 address: four octets from 0 to 255, each of at most
/// three digits, with dots between them.
pub fn is_valid_ipv4(s: &str) -> (r: bool)
    ensures
        r == text::is_dotted(s@),
{
    text::is_dotted_octets(s)
}

pub open spec fn is_alphanumeric(c: char) -> bool {
    ||| '0' <= c <= '9'
    ||| 'a' <= c <= 'z'
    ||| 'A' <= c <= 'Z'
}

fn is_ascii_alphanumeric(c: char) -> (r: bool)
    ensures
        r == is_alphanumeric(c),
{
    ('0' <= c && c <= '9') || ('a' <= c && c <= 'z') || ('A' <= c && c <= 'Z')
}

/// The name of a Wi-Fi Direct group: `DIRECT-`, two letters or digits, and anything
/// after them.
pub open spec fn is_wifi_direct_ssid(s: Seq<char>) -> bool {
    &&& text::occurs_at(s, "DIRECT-"@, 0)
    &&& s.len() >= 9
    &&& is_alphanumeric(s[7])
    &&& is_alphanumeric(s[8])
}

/// Whether a string is the name of a Wi-Fi Direct group.
pub fn matches_wifi_direct_ssid(s: &str) -> (r: bool)
    ensures
        r == is_wifi_direct_ssid(s@),
{
    let chars = text::chars_of(s);
    text::starts_with(&chars, "DIRECT-") && chars.len() >= 9 && is_ascii_alphanumeric(chars[7])
        && is_ascii_alphanumeric(chars[8])
}

/// A file name must not hold a separator of paths or drives.
pub open spec fn illegal_file_name(s: Seq<char>) -> bool {
    text::occurs(s, ":"@) || text::occurs(s, "/"@) || text::occurs(s, "\\"@)
}

/// A parent folder must not name a drive, nor lead upwards.
pub open spec fn illegal_parent_folder(s: Seq<char>) -> bool {
    text::occurs(s, ":"@) || text::occurs(s, ".."@)
}

/// Whether a string that is not empty holds one of some patterns.
pub fn has_illegal_characters(to_validate: &str, illegal_patterns: &[&str]) -> (r: bool)
    ensures
        r == (to_validate@.len() > 0 && exists|i: int|
            0 <= i < illegal_patterns@.len() && text::occurs(
                to_validate@,
                (#[trigger] illegal_patterns@[i])@,
            )),
{
    if text::is_empty(to_validate) {
        return false;
    }
    let mut i: usize = 0;
    while i < illegal_patterns.len()
        invariant
            i <= illegal_patterns@.len(),
            to_validate@.len() > 0,
            forall|j: int|
                0 <= j < i ==> !text::occurs(to_validate@, (#[trigger] illegal_patterns@[j])@),
        decreases illegal_patterns@.len() - i,
    {
        if text::contains(to_validate, illegal_patterns[i]) {
            return true;
        }
        i = i + 1;
    }
    false
}

// ---------------------------------------------------------------------------
// Connections
// ---------------------------------------------------------------------------

pub open spec fn present(s: Option<Seq<char>>) -> bool {
    s matches Some(s) && s.len() > 0
}

fn is_present(s: &Option<String>) -> (r: bool)
    ensures
        r == present(wire::opt_view(*s)),
{
    match s {
        Some(s) => !s.as_str().is_empty(),
        None => false,
    }
}

/// A connection request names its endpoint.
pub open spec fn connection_request_verdict(frame: pb::ConnectionRequestFrameView) -> Exception {
    unless_malformed(present(frame.endpoint_id) && present(frame.endpoint_name))
}

fn ensure_valid_connection_request_frame(frame: &pb::ConnectionRequestFrame) -> (r: Exception)
    ensures
        r == connection_request_verdict(frame@),
{
    if !is_present(&frame.endpoint_id) {
        return Exception::InvalidProtocolBuffer;
    }
    if !is_present(&frame.endpoint_name) {
        return Exception::InvalidProtocolBuffer;
    }
    Exception::Success
}

/// Any answer will do: older peers leave fields out.
fn ensure_valid_connection_response_frame(_frame: &pb::ConnectionResponseFrame) -> (r: Exception)
    ensures
        r == Exception::Success,
{
    Exception::Success
}

// ---------------------------------------------------------------------------
// Payloads
// ---------------------------------------------------------------------------

/// An offset is given, and lies within the payload if its size is known.
pub open spec fn offset_within(offset: Option<i64>, total_size: i64) -> bool {
    offset matches Some(offset) && 0 <= offset && (total_size == INDETERMINATE_SIZE || offset
        <= total_size)
}

fn is_offset_within(offset: Option<i64>, total_size: i64) -> (r: bool)
    ensures
        r == offset_within(offset, total_size),
{
    match offset {
        Some(offset) => offset >= 0 && (total_size == INDETERMINATE_SIZE || total_size >= offset),
        None => false,
    }
}

/// A chunk has flags, a body unless it is the last one, and an offset within the
/// payload.
pub open spec fn chunk_verdict(chunk: ptf::PayloadChunkView, total_size: i64) -> Exception {
    unless_malformed(
        {
            &&& chunk.flags matches Some(flags)
            &&& chunk.body is Some || (flags & ptf::payload_chunk::Flags::LastChunk.value()) != 0
            &&& offset_within(chunk.offset, total_size)
        },
    )
}

fn ensure_valid_payload_transfer_data_frame(
    payload_chunk: &ptf::PayloadChunk,
    total_size: i64,
) -> (r: Exception)
    ensures
        r == chunk_verdict(payload_chunk@, total_size),
{
    match payload_chunk.flags {
        Some(flags) => {
            let is_last_chunk = (flags & ptf::payload_chunk::Flags::LastChunk.value()) != 0;
            if payload_chunk.body.is_none() && !is_last_chunk {
                return Exception::InvalidProtocolBuffer;
            }
            exception_unless(is_offset_within(payload_chunk.offset, total_size))
        },
        None => Exception::InvalidProtocolBuffer,
    }
}

fn ensure_valid_payload_transfer_control_frame(
    control_message: &ptf::ControlMessage,
    total_size: i64,
) -> (r: Exception)
    ensures
        r == unless_malformed(offset_within(control_message.offset, total_size)),
{
    exception_unless(is_offset_within(control_message.offset, total_size))
}

/// The size of a payload is given, and is not negative unless it is the one that
/// stands for an unknown size.
pub open spec fn size_given(total_size: Option<i64>) -> bool {
    total_size matches Some(size) && (size >= 0 || size == INDETERMINATE_SIZE)
}

/// A file is named in a way that no peer may use.
pub open spec fn illegally_named(header: ptf::PayloadHeaderView) -> bool {
    &&& header.type_ == Some(ptf::payload_header::PayloadType::File.value())
    &&& {
        ||| header.file_name matches Some(name) && illegal_file_name(name)
        ||| header.parent_folder matches Some(folder) && illegal_parent_folder(folder)
    }
}

/// A payload transfer has a header. An acknowledgement needs nothing more. Others
/// give the size, name files legally, and hold the chunk or the control message
/// that goes with their type.
pub open spec fn payload_transfer_verdict(frame: pb::PayloadTransferFrameView) -> Exception {
    match frame.payload_header {
        None => Exception::InvalidProtocolBuffer,
        Some(header) => if frame.packet_type == Some(ptf::PacketType::PayloadAck.value()) {
            Exception::Success
        } else if !size_given(header.total_size) {
            Exception::InvalidProtocolBuffer
        } else if illegally_named(header) {
            Exception::IllegalCharacters
        } else {
            let total_size = header.total_size->0;
            if frame.packet_type is None {
                Exception::InvalidProtocolBuffer
            } else if frame.packet_type == Some(ptf::PacketType::Data.value()) {
                match frame.payload_chunk {
                    Some(chunk) => chunk_verdict(chunk, total_size),
                    None => Exception::InvalidProtocolBuffer,
                }
            } else if frame.packet_type == Some(ptf::PacketType::Control.value()) {
                unless_malformed(
                    frame.control_message is Some && offset_within(
                        frame.control_message->0.offset,
                        total_size,
                    ),
                )
            } else {
                Exception::Success
            }
        },
    }
}

fn ensure_valid_payload_transfer_frame(frame: &pb::PayloadTransferFrame) -> (r: Exception)
    ensures
        r == payload_transfer_verdict(frame@),
{
    let header = match &frame.payload_header {
        Some(h) => h,
        None => return Exception::InvalidProtocolBuffer,
    };
    let packet_type = match frame.packet_type {
        Some(v) => match ptf::PacketType::from_i32(v) {
            Some(t) => t,
            None => ptf::PacketType::UnknownPacketType,
        },
        None => ptf::PacketType::UnknownPacketType,
    };
    if packet_type == ptf::PacketType::PayloadAck {
        return Exception::Success;
    }
    let total_size = match header.total_size {
        Some(size) => size,
        None => return Exception::InvalidProtocolBuffer,
    };
    if total_size < 0 && total_size != INDETERMINATE_SIZE {
        return Exception::InvalidProtocolBuffer;
    }
    if header.type_ == Some(ptf::payload_header::PayloadType::File.value()) {
        if let Some(file_name) = &header.file_name {
            if is_illegal_file_name(file_name.as_str()) {
                return Exception::IllegalCharacters;
            }
        }
        if let Some(parent_folder) = &header.parent_folder {
            if is_illegal_parent_folder(parent_folder.as_str()) {
                return Exception::IllegalCharacters;
            }
        }
    }
    if frame.packet_type.is_none() {
        return Exception::InvalidProtocolBuffer;
    }
    match packet_type {
        ptf::PacketType::Data => {
            if let Some(chunk) = &frame.payload_chunk {
                return ensure_valid_payload_transfer_data_frame(chunk, total_size);
            }
            Exception::InvalidProtocolBuffer
        },
        ptf::PacketType::Control => {
            if let Some(control) = &frame.control_message {
                return ensure_valid_payload_transfer_control_frame(control, total_size);
            }
            Exception::InvalidProtocolBuffer
        },
        _ => Exception::Success,
    }
}

fn is_illegal_file_name(s: &str) -> (r: bool)
    ensures
        r == illegal_file_name(s@),
{
    proof {
        reveal_strlit(":");
        reveal_strlit("/");
        reveal_strlit("\\");
    }
    let patterns: [&str; 3] = [":", "/", "\\"];
    let r = has_illegal_characters(s, &patterns);
    assert(patterns@[0] == ":" && patterns@[1] == "/" && patterns@[2] == "\\");
    r
}

fn is_illegal_parent_folder(s: &str) -> (r: bool)
    ensures
        r == illegal_parent_folder(s@),
{
    proof {
        reveal_strlit(":");
        reveal_strlit("..");
    }
    let patterns: [&str; 2] = [":", ".."];
    let r = has_illegal_characters(s, &patterns);
    assert(patterns@[0] == ":" && patterns@[1] == "..");
    r
}

// ---------------------------------------------------------------------------
// Upgrade paths
// ---------------------------------------------------------------------------

/// A string is given, and the number of its bytes lies in the range.
pub open spec fn length_within(s: Option<Seq<char>>, min: int, max: int) -> bool {
    s matches Some(s) && min <= encode_utf8(s).len() < max
}

fn is_length_within(s: &Option<String>, min: usize, max: usize) -> (r: bool)
    ensures
        r == length_within(wire::opt_view(*s), min as int, max as int),
{
    match s {
        Some(s) => within_range(s.as_str().as_bytes().len(), min, max),
        None => false,
    }
}

/// An address of a candidate is an IPv4 or an IPv6 address, and has a port.
pub open spec fn candidate_ok(candidate: pb::ServiceAddressView) -> bool {
    &&& candidate.ip_address matches Some(ip)
    &&& ip.len() == 4 || ip.len() == 16
    &&& candidate.port is Some
}

/// A hotspot has a name, a password of a legal length, and an address: a gateway,
/// which is an IPv4 address or empty, or some candidates.
pub open spec fn wifi_hotspot_verdict(creds: upi::WifiHotspotCredentialsView) -> Exception {
    let gateway = match creds.gateway {
        Some(gateway) => gateway,
        None => "0.0.0.0"@,
    };
    unless_malformed(
        {
            &&& creds.ssid is Some
            &&& length_within(
                creds.password,
                WIFI_PASSWORD_SSID_MIN_LENGTH as int,
                WIFI_PASSWORD_SSID_MAX_LENGTH as int,
            )
            &&& creds.gateway is Some || creds.address_candidates.len() > 0
            &&& gateway.len() == 0 || text::is_dotted(gateway)
            &&& forall|i: int|
                0 <= i < creds.address_candidates.len() ==> candidate_ok(
                    #[trigger] creds.address_candidates[i],
                )
        },
    )
}

fn ensure_valid_bwu_wifi_hotspot_path_available(creds: &upi::WifiHotspotCredentials) -> (r:
    Exception)
    ensures
        r == wifi_hotspot_verdict(creds@),
{
    if creds.ssid.is_none() {
        return Exception::InvalidProtocolBuffer;
    }
    if !is_length_within(
        &creds.password,
        WIFI_PASSWORD_SSID_MIN_LENGTH,
        WIFI_PASSWORD_SSID_MAX_LENGTH,
    ) {
        return Exception::InvalidProtocolBuffer;
    }
    if creds.gateway.is_none() && creds.address_candidates.len() == 0 {
        return Exception::InvalidProtocolBuffer;
    }
    let gateway: &str = match &creds.gateway {
        Some(gateway) => gateway.as_str(),
        None => "0.0.0.0",
    };
    if !gateway.is_empty() && !is_valid_ipv4(gateway) {
        return Exception::InvalidProtocolBuffer;
    }
    let ghost candidates = creds@.address_candidates;
    let mut i: usize = 0;
    while i < creds.address_candidates.len()
        invariant
            i <= creds.address_candidates@.len(),
            candidates == creds@.address_candidates,
            forall|j: int| 0 <= j < i ==> candidate_ok(#[trigger] candidates[j]),
        decreases creds.address_candidates@.len() - i,
    {
        let candidate = &creds.address_candidates[i];
        assert(candidates[i as int] == candidate@);
        if candidate.port.is_none() {
            return Exception::InvalidProtocolBuffer;
        }
        match &candidate.ip_address {
            Some(ip) => {
                if ip.len() != 4 && ip.len() != 16 {
                    return Exception::InvalidProtocolBuffer;
                }
            },
            None => {
                return Exception::InvalidProtocolBuffer;
            },
        }
        i = i + 1;
    }
    Exception::Success
}

/// A socket on the local network has an address and a port, or some candidates.
pub open spec fn wifi_lan_verdict(socket: upi::WifiLanSocketView) -> Exception {
    unless_malformed(
        {
            ||| socket.ip_address is Some && (socket.wifi_port matches Some(port) && port > 0)
            ||| socket.address_candidates.len() > 0
        },
    )
}

fn ensure_valid_bwu_wifi_lan_path_available(socket: &upi::WifiLanSocket) -> (r: Exception)
    ensures
        r == wifi_lan_verdict(socket@),
{
    let wifi_port: i32 = socket.wifi_port.unwrap_or(0);
    if (socket.ip_address.is_none() || wifi_port <= 0) && socket.address_candidates.len() == 0 {
        return Exception::InvalidProtocolBuffer;
    }
    Exception::Success
}

fn ensure_valid_bwu_wifi_aware_path_available(creds: &upi::WifiAwareCredentials) -> (r: Exception)
    ensures
        r == unless_malformed(creds@.service_id is Some && creds@.service_info is Some),
{
    if creds.service_id.is_none() {
        return Exception::InvalidProtocolBuffer;
    }
    if creds.service_info.is_none() {
        return Exception::InvalidProtocolBuffer;
    }
    Exception::Success
}

/// A Wi-Fi Direct group has a frequency of at least -1, and can be joined: by its
/// name and a password, or by the name of a device and a PIN.
pub open spec fn wifi_direct_verdict(creds: upi::WifiDirectCredentialsView) -> Exception {
    let by_password = {
        &&& length_within(creds.ssid, 0, WIFI_DIRECT_SSID_MAX_LENGTH as int)
        &&& is_wifi_direct_ssid(creds.ssid->0)
        &&& length_within(
            creds.password,
            WIFI_PASSWORD_SSID_MIN_LENGTH as int,
            WIFI_PASSWORD_SSID_MAX_LENGTH as int,
        )
    };
    let by_pin = {
        &&& length_within(creds.device_name, 0, WIFI_DIRECT_SSID_MAX_LENGTH as int)
        &&& length_within(
            creds.pin,
            WIFI_DIRECT_PIN_MIN_LENGTH as int,
            WIFI_DIRECT_PIN_MAX_LENGTH as int,
        )
    };
    unless_malformed(
        {
            &&& creds.frequency matches Some(frequency)
            &&& frequency >= -1
            &&& by_password || by_pin
        },
    )
}

fn ensure_valid_bwu_wifi_direct_path_available(creds: &upi::WifiDirectCredentials) -> (r: Exception)
    ensures
        r == wifi_direct_verdict(creds@),
{
    match creds.frequency {
        Some(frequency) => {
            if frequency < -1 {
                return Exception::InvalidProtocolBuffer;
            }
        },
        None => return Exception::InvalidProtocolBuffer,
    }
    let ssid_valid = match &creds.ssid {
        Some(ssid) => is_length_within(&creds.ssid, 0, WIFI_DIRECT_SSID_MAX_LENGTH)
            && matches_wifi_direct_ssid(ssid.as_str()),
        None => false,
    };
    let password_valid = is_length_within(
        &creds.password,
        WIFI_PASSWORD_SSID_MIN_LENGTH,
        WIFI_PASSWORD_SSID_MAX_LENGTH,
    );
    let device_name_valid = is_length_within(&creds.device_name, 0, WIFI_DIRECT_SSID_MAX_LENGTH);
    let pin_valid = is_length_within(
        &creds.pin,
        WIFI_DIRECT_PIN_MIN_LENGTH,
        WIFI_DIRECT_PIN_MAX_LENGTH,
    );
    if (ssid_valid && password_valid) || (device_name_valid && pin_valid) {
        return Exception::Success;
    }
    Exception::InvalidProtocolBuffer
}

fn ensure_valid_bwu_bluetooth_path_available(creds: &upi::BluetoothCredentials) -> (r: Exception)
    ensures
        r == unless_malformed(creds@.service_name is Some && creds@.mac_address is Some),
{
    if creds.service_name.is_none() {
        return Exception::InvalidProtocolBuffer;
    }
    if creds.mac_address.is_none() {
        return Exception::InvalidProtocolBuffer;
    }
    Exception::Success
}

fn ensure_valid_bwu_web_rtc_path_available(creds: &upi::WebRtcCredentials) -> (r: Exception)
    ensures
        r == unless_malformed(creds@.peer_id is Some),
{
    if creds.peer_id.is_none() {
        return Exception::InvalidProtocolBuffer;
    }
    Exception::Success
}

/// An upgrade path names a known medium, and holds valid credentials for it if it is
/// one that has some.
pub open spec fn path_available_verdict(info: bwu::UpgradePathInfoView) -> Exception {
    match info.medium {
        None => Exception::InvalidProtocolBuffer,
        Some(number) => match upi::Medium::from_i32(number) {
            None => Exception::InvalidProtocolBuffer,
            Some(upi::Medium::WifiHotspot) => match info.wifi_hotspot_credentials {
                Some(creds) => wifi_hotspot_verdict(creds),
                None => Exception::InvalidProtocolBuffer,
            },
            Some(upi::Medium::WifiLan) => match info.wifi_lan_socket {
                Some(socket) => wifi_lan_verdict(socket),
                None => Exception::InvalidProtocolBuffer,
            },
            Some(upi::Medium::WifiAware) => unless_malformed(
                info.wifi_aware_credentials matches Some(creds) && creds.service_id is Some
                    && creds.service_info is Some,
            ),
            Some(upi::Medium::WifiDirect) => match info.wifi_direct_credentials {
                Some(creds) => wifi_direct_verdict(creds),
                None => Exception::InvalidProtocolBuffer,
            },
            Some(upi::Medium::Bluetooth) => unless_malformed(
                info.bluetooth_credentials matches Some(creds) && creds.service_name is Some
                    && creds.mac_address is Some,
            ),
            Some(upi::Medium::WebRtc) => unless_malformed(
                info.web_rtc_credentials matches Some(creds) && creds.peer_id is Some,
            ),
            Some(_) => Exception::Success,
        },
    }
}

fn ensure_valid_bwu_path_available_frame(upgrade_path_info: &bwu::UpgradePathInfo) -> (r: Exception)
    ensures
        r == path_available_verdict(upgrade_path_info@),
{
    let medium = match upgrade_path_info.medium {
        Some(v) => match upi::Medium::from_i32(v) {
            Some(m) => m,
            None => return Exception::InvalidProtocolBuffer,
        },
        None => return Exception::InvalidProtocolBuffer,
    };
    match medium {
        upi::Medium::WifiHotspot => match &upgrade_path_info.wifi_hotspot_credentials {
            Some(c) => ensure_valid_bwu_wifi_hotspot_path_available(c),
            None => Exception::InvalidProtocolBuffer,
        },
        upi::Medium::WifiLan => match &upgrade_path_info.wifi_lan_socket {
            Some(s) => ensure_valid_bwu_wifi_lan_path_available(s),
            None => Exception::InvalidProtocolBuffer,
        },
        upi::Medium::WifiAware => match &upgrade_path_info.wifi_aware_credentials {
            Some(c) => ensure_valid_bwu_wifi_aware_path_available(c),
            None => Exception::InvalidProtocolBuffer,
        },
        upi::Medium::WifiDirect => match &upgrade_path_info.wifi_direct_credentials {
            Some(c) => ensure_valid_bwu_wifi_direct_path_available(c),
            None => Exception::InvalidProtocolBuffer,
        },
        upi::Medium::Bluetooth => match &upgrade_path_info.bluetooth_credentials {
            Some(c) => ensure_valid_bwu_bluetooth_path_available(c),
            None => Exception::InvalidProtocolBuffer,
        },
        upi::Medium::WebRtc => match &upgrade_path_info.web_rtc_credentials {
            Some(c) => ensure_valid_bwu_web_rtc_path_available(c),
            None => Exception::InvalidProtocolBuffer,
        },
        _ => Exception::Success,
    }
}

fn ensure_valid_bwu_client_introduction_frame(
    client_introduction: &bwu::ClientIntroduction,
) -> (r: Exception)
    ensures
        r == unless_malformed(client_introduction@.endpoint_id is Some),
{
    if client_introduction.endpoint_id.is_none() {
        return Exception::InvalidProtocolBuffer;
    }
    Exception::Success
}

/// A step of a bandwidth upgrade is a known one. An offer holds a valid upgrade path,
/// and an introduction names the endpoint.
pub open spec fn negotiation_verdict(
    frame: pb::BandwidthUpgradeNegotiationFrameView,
) -> Exception {
    match frame.event_type {
        None => Exception::InvalidProtocolBuffer,
        Some(number) => match bwu::EventType::from_i32(number) {
            None => Exception::InvalidProtocolBuffer,
            Some(bwu::EventType::UpgradePathAvailable) => match frame.upgrade_path_info {
                Some(info) => path_available_verdict(info),
                None => Exception::InvalidProtocolBuffer,
            },
            Some(bwu::EventType::ClientIntroduction) => unless_malformed(
                frame.client_introduction matches Some(intro) && intro.endpoint_id is Some,
            ),
            Some(_) => Exception::Success,
        },
    }
}

fn ensure_valid_bwu_negotiation_frame(frame: &pb::BandwidthUpgradeNegotiationFrame) -> (r:
    Exception)
    ensures
        r == negotiation_verdict(frame@),
{
    let event_type = match frame.event_type {
        Some(v) => match bwu::EventType::from_i32(v) {
            Some(e) => e,
            None => return Exception::InvalidProtocolBuffer,
        },
        None => return Exception::InvalidProtocolBuffer,
    };
    match event_type {
        bwu::EventType::UpgradePathAvailable => match &frame.upgrade_path_info {
            Some(info) => ensure_valid_bwu_path_available_frame(info),
            None => Exception::InvalidProtocolBuffer,
        },
        bwu::EventType::ClientIntroduction => match &frame.client_introduction {
            Some(intro) => ensure_valid_bwu_client_introduction_frame(intro),
            None => Exception::InvalidProtocolBuffer,
        },
        _ => Exception::Success,
    }
}

// ---------------------------------------------------------------------------
// Frames
// ---------------------------------------------------------------------------

/// The verdict on a frame: one of the types that call for a sub-frame holds that
/// sub-frame, and the sub-frame is valid. Frames of other types are valid as they are.
pub open spec fn verdict(frame: pb::OfflineFrameView) -> Exception {
    let v1 = frame.v1->0;
    match frames::frame_type_of(frame) {
        pb::v1_frame::FrameType::ConnectionRequest => match v1.connection_request {
            Some(sub) => connection_request_verdict(sub),
            None => Exception::InvalidProtocolBuffer,
        },
        pb::v1_frame::FrameType::ConnectionResponse => unless_malformed(
            v1.connection_response is Some,
        ),
        pb::v1_frame::FrameType::PayloadTransfer => match v1.payload_transfer {
            Some(sub) => payload_transfer_verdict(sub),
            None => Exception::InvalidProtocolBuffer,
        },
        pb::v1_frame::FrameType::BandwidthUpgradeNegotiation => match v1.bandwidth_upgrade_negotiation {
            Some(sub) => negotiation_verdict(sub),
            None => Exception::InvalidProtocolBuffer,
        },
        _ => Exception::Success,
    }
}

/// Validates a parsed frame.
pub fn ensure_valid_offline_frame(offline_frame: &pb::OfflineFrame) -> (r: Exception)
    ensures
        r == verdict(offline_frame@),
{
    let frame_type = get_frame_type(offline_frame);
    let v1 = match &offline_frame.v1 {
        Some(v1) => v1,
        None => return Exception::Success,
    };
    match frame_type {
        pb::v1_frame::FrameType::ConnectionRequest => match &v1.connection_request {
            Some(req) => ensure_valid_connection_request_frame(req),
            None => Exception::InvalidProtocolBuffer,
        },
        pb::v1_frame::FrameType::ConnectionResponse => match &v1.connection_response {
            Some(resp) => ensure_valid_connection_response_frame(resp),
            None => Exception::InvalidProtocolBuffer,
        },
        pb::v1_frame::FrameType::PayloadTransfer => match &v1.payload_transfer {
            Some(pt) => ensure_valid_payload_transfer_frame(pt),
            None => Exception::InvalidProtocolBuffer,
        },
        pb::v1_frame::FrameType::BandwidthUpgradeNegotiation => match &v1.bandwidth_upgrade_negotiation {
            Some(bwu) => ensure_valid_bwu_negotiation_frame(bwu),
            None => Exception::InvalidProtocolBuffer,
        },
        _ => Exception::Success,
    }
}

/// Validating gives no verdict but these.
pub proof fn lemma_verdicts(frame: pb::OfflineFrameView)
    ensures
        verdict(frame) is Success || verdict(frame) is InvalidProtocolBuffer || verdict(
            frame,
        ) is IllegalCharacters,
{
}

} // verus!

//! The numbers of the wire format: those that stand for the variants of an enumeration, and
//! those under which the fields of a message are written.
//!
//! Peers agree on these numbers, and on nothing else.

use vstd::prelude::*;

use crate::message;
use crate::message::Message;
use crate::proto as pb;
use crate::proto::bandwidth_upgrade_negotiation_frame as bwu;
use crate::proto::bandwidth_upgrade_negotiation_frame::upgrade_path_info as upi;
use crate::proto::connection_request_frame as crf;
use crate::proto::payload_transfer_frame as ptf;
use crate::wire;
use crate::wire::{FieldView, ValueView};

verus! {

// ---------------------------------------------------------------------------
// Fields
// ---------------------------------------------------------------------------

/// The number whose digits to the base 128 are the low seven bits of some bytes, the least
/// significant first.
pub open spec fn base128(bytes: Seq<u8>) -> nat
    decreases bytes.len(),
{
    if bytes.len() == 0 {
        0
    } else {
        (bytes[0] % 128) as nat + 128 * base128(bytes.skip(1))
    }
}

/// A number is written to the base 128, the least significant digit first, and each byte but
/// the last has its highest bit set. No digit is written that is not needed.
pub proof fn lemma_varint_written(value: nat)
    ensures
        ({
            let bytes = wire::varint_bytes(value);
            &&& bytes.len() > 0
            &&& base128(bytes) == value
            &&& bytes.last() < 128
            &&& forall|i: int| 0 <= i < bytes.len() - 1 ==> #[trigger] bytes[i] >= 128
            &&& value > 0 ==> bytes.last() != 0
        }),
    decreases value,
{
    let bytes = wire::varint_bytes(value);
    if value < 128 {
        assert(bytes.skip(1) =~= Seq::empty());
        assert(base128(bytes.skip(1)) == 0);
    } else {
        let rest = wire::varint_bytes(value / 128);
        lemma_varint_written(value / 128);
        assert(bytes.skip(1) =~= rest);
        assert(bytes[0] % 128 == value % 128);
        assert forall|i: int| 0 <= i < bytes.len() - 1 implies #[trigger] bytes[i] >= 128 by {
            if i > 0 {
                assert(bytes[i] == rest[i - 1]);
            }
        }
        assert(bytes.last() == rest.last());
    }
}

/// A number is read up to the first byte whose highest bit is not set, which is one of the
/// first ten, and is malformed if there is none or if it does not fit 64 bits.
pub proof fn lemma_varint_read(bytes: Seq<u8>, n: int)
    requires
        1 <= n <= 10,
        n <= bytes.len(),
        bytes[n - 1] < 128,
        forall|i: int| 0 <= i < n - 1 ==> #[trigger] bytes[i] >= 128,
    ensures
        wire::varint_at(bytes) == (if base128(bytes.take(n)) <= u64::MAX {
            Some((base128(bytes.take(n)) as u64, n as nat))
        } else {
            None
        }),
{
    lemma_prefix_read(bytes, n, 10);
}

proof fn lemma_prefix_read(bytes: Seq<u8>, n: int, width: nat)
    requires
        1 <= n <= width,
        n <= bytes.len(),
        bytes[n - 1] < 128,
        forall|i: int| 0 <= i < n - 1 ==> #[trigger] bytes[i] >= 128,
    ensures
        wire::varint_prefix(bytes, width) == Some((base128(bytes.take(n)), n as nat)),
    decreases n,
{
    let front = bytes.take(n);
    assert(front.skip(1) =~= bytes.skip(1).take(n - 1));
    if n == 1 {
        assert(front.skip(1) =~= Seq::empty());
        assert(base128(front.skip(1)) == 0);
    } else {
        let rest = bytes.skip(1);
        assert(bytes[0] >= 128);
        assert forall|i: int| 0 <= i < n - 2 implies #[trigger] rest[i] >= 128 by {
            assert(bytes[i + 1] >= 128);
        }
        lemma_prefix_read(rest, n - 1, (width - 1) as nat);
        assert(bytes[0] % 128 == bytes[0] - 128);
    }
}

/// Ten bytes that all go on, or fewer that never end, are no number.
pub proof fn lemma_varint_endless(bytes: Seq<u8>)
    requires
        forall|i: int| 0 <= i < bytes.len() && i < 10 ==> #[trigger] bytes[i] >= 128,
    ensures
        wire::varint_at(bytes) is None,
{
    lemma_prefix_endless(bytes, 10);
}

proof fn lemma_prefix_endless(bytes: Seq<u8>, width: nat)
    requires
        forall|i: int| 0 <= i < bytes.len() && i < width ==> #[trigger] bytes[i] >= 128,
    ensures
        wire::varint_prefix(bytes, width) is None,
    decreases width,
{
    if width > 0 && bytes.len() > 0 {
        let rest = bytes.skip(1);
        assert forall|i: int| 0 <= i < rest.len() && i < width - 1 implies #[trigger] rest[i]
            >= 128 by {
            assert(bytes[i + 1] >= 128);
        }
        lemma_prefix_endless(rest, (width - 1) as nat);
    }
}

/// A field is a key, which is its number and the kind of its value, and the value: a number
/// of its own, of kind 0, or bytes with their length before them, of kind 2.
pub proof fn lemma_field_written(number: u32, bits: u64, bytes: Seq<u8>)
    ensures
        wire::field_bytes(FieldView { number, value: ValueView::Varint(bits) })
            == wire::varint_bytes((number * 8) as nat) + wire::varint_bytes(bits as nat),
        wire::field_bytes(FieldView { number, value: ValueView::Bytes(bytes) })
            == wire::varint_bytes((number * 8 + 2) as nat) + wire::varint_bytes(bytes.len())
            + bytes,
{
}

/// A negative number is written with all of its 64 bits. What is read of a 32-bit number
/// are its low 32 bits, with their sign, and of a truth value whether any bit is set.
pub proof fn lemma_numbers_written(small: i32, large: i64, bits: u64, truth: bool)
    ensures
        message::int32_bits(small) == (if small >= 0 {
            small as int
        } else {
            small + 0x1_0000_0000_0000_0000
        }),
        message::int64_bits(large) == (if large >= 0 {
            large as int
        } else {
            large + 0x1_0000_0000_0000_0000
        }),
        (message::int32_from(bits) - bits) % 0x1_0000_0000 == 0,
        (message::int64_from(bits) - bits) % 0x1_0000_0000_0000_0000 == 0,
        (message::uint32_from(bits) - bits) % 0x1_0000_0000 == 0,
        message::bool_bits(truth) == (if truth {
            1
        } else {
            0int
        }),
{
}

/// Where a field occurs more than once, its last occurrence counts, and where it does not
/// occur it is not set. A value of another kind is malformed.
pub proof fn lemma_last_counts(values: Seq<ValueView>, bits: u64, bytes: Seq<u8>)
    ensures
        message::all_varints(values) ==> {
            let more = values.push(ValueView::Varint(bits));
            &&& message::int32_of(more) == Some(Some(message::int32_from(bits)))
            &&& message::int64_of(more) == Some(Some(message::int64_from(bits)))
            &&& message::uint32_of(more) == Some(Some(message::uint32_from(bits)))
            &&& message::bool_of(more) == Some(Some(bits != 0))
        },
        message::all_bytes(values) ==> message::bytes_of(values.push(ValueView::Bytes(bytes)))
            == Some(Some(bytes)),
        message::int32_of(Seq::empty()) == Some(None::<i32>),
        message::bytes_of(Seq::empty()) == Some(None::<Seq<u8>>),
        message::string_of(Seq::empty()) == Some(None::<Seq<char>>),
        message::int32_of(values.push(ValueView::Bytes(bytes))) is None,
        message::int64_of(values.push(ValueView::Bytes(bytes))) is None,
        message::bool_of(values.push(ValueView::Other)) is None,
        message::bytes_of(values.push(ValueView::Varint(bits))) is None,
        message::string_of(values.push(ValueView::Varint(bits))) is None,
        !vstd::utf8::valid_utf8(bytes) ==> message::string_of(
            values.push(ValueView::Bytes(bytes)),
        ) is None,
{
    let number = values.push(ValueView::Varint(bits));
    let run = values.push(ValueView::Bytes(bytes));
    let other = values.push(ValueView::Other);
    let n = values.len() as int;
    assert(number[n] == ValueView::Varint(bits));
    assert(run[n] == ValueView::Bytes(bytes));
    assert(other[n] == ValueView::Other);
    if message::all_varints(values) {
        assert(message::all_varints(number));
    }
    if message::all_bytes(values) {
        assert(message::all_bytes(run));
    }
}

/// Nothing is set in a message with nothing in it.
pub proof fn lemma_nothing_set()
    ensures
        ({
            let v = pb::authentication_frame::AuthenticationMessageFrameView::unset();
            &&& v.auth_message is None
        }),
        ({
            let v = pb::authentication_frame::AuthenticationResultFrame::unset();
            &&& v.result is None
        }),
        ({
            let v = pb::auto_reconnect_frame::AutoReconnectFrameView::unset();
            &&& v.endpoint_id is None
            &&& v.event_type is None
            &&& v.last_endpoint_id is None
        }),
        ({
            let v = pb::auto_resume_frame::AutoResumeFrame::unset();
            &&& v.event_type is None
            &&& v.pending_payload_id is None
            &&& v.next_payload_chunk_index is None
            &&& v.version is None
        }),
        ({
            let v = bwu::client_introduction::ClientIntroductionView::unset();
            &&& v.endpoint_id is None
            &&& v.supports_disabling_encryption is None
            &&& v.last_endpoint_id is None
        }),
        ({
            let v = bwu::client_introduction::SafeToClosePriorChannel::unset();
            &&& v.sta_frequency is None
        }),
        ({
            let v = bwu::BandwidthUpgradeNegotiationFrameView::unset();
            &&& v.event_type is None
            &&& v.upgrade_path_info is None
            &&& v.client_introduction is None
            &&& v.client_introduction_ack is None
            &&& v.safe_to_close_prior_channel is None
        }),
        ({
            let v = upi::WifiHotspotCredentialsView::unset();
            &&& v.ssid is None
            &&& v.password is None
            &&& v.port is None
            &&& v.gateway is None
            &&& v.frequency is None
            &&& v.address_candidates.len() == 0
        }),
        ({
            let v = upi::WifiLanSocketView::unset();
            &&& v.ip_address is None
            &&& v.wifi_port is None
            &&& v.address_candidates.len() == 0
        }),
        ({
            let v = upi::BluetoothCredentialsView::unset();
            &&& v.service_name is None
            &&& v.mac_address is None
        }),
        ({
            let v = upi::WifiAwareCredentialsView::unset();
            &&& v.service_id is None
            &&& v.service_info is None
            &&& v.password is None
        }),
        ({
            let v = upi::WifiDirectCredentialsView::unset();
            &&& v.ssid is None
            &&& v.password is None
            &&& v.port is None
            &&& v.frequency is None
            &&& v.gateway is None
            &&& v.ip_v6_address is None
            &&& v.device_name is None
            &&& v.pin is None
        }),
        ({
            let v = upi::WebRtcCredentialsView::unset();
            &&& v.peer_id is None
            &&& v.location_hint is None
        }),
        ({
            let v = upi::AwdlCredentialsView::unset();
            &&& v.service_name is None
            &&& v.service_type is None
            &&& v.password is None
        }),
        ({
            let v = upi::UpgradePathRequestView::unset();
            &&& v.mediums.len() == 0
            &&& v.medium_meta_data is None
        }),
        ({
            let v = upi::UpgradePathInfoView::unset();
            &&& v.medium is None
            &&& v.wifi_hotspot_credentials is None
            &&& v.wifi_lan_socket is None
            &&& v.bluetooth_credentials is None
            &&& v.wifi_aware_credentials is None
            &&& v.wifi_direct_credentials is None
            &&& v.supports_disabling_encryption is None
            &&& v.web_rtc_credentials is None
            &&& v.supports_client_introduction_ack is None
            &&& v.upgrade_path_request is None
            &&& v.awdl_credentials is None
        }),
        ({
            let v = pb::bandwidth_upgrade_retry_frame::BandwidthUpgradeRetryFrameView::unset();
            &&& v.supported_medium.len() == 0
            &&& v.is_request is None
        }),
        ({
            let v = crf::ConnectionRequestFrameView::unset();
            &&& v.endpoint_id is None
            &&& v.endpoint_name is None
            &&& v.handshake_data is None
            &&& v.nonce is None
            &&& v.mediums.len() == 0
            &&& v.endpoint_info is None
            &&& v.medium_metadata is None
            &&& v.keep_alive_interval_millis is None
            &&& v.keep_alive_timeout_millis is None
            &&& v.device_type is None
            &&& v.device_info is None
            &&& v.device is None
            &&& v.connection_mode is None
            &&& v.location_hint is None
        }),
        ({
            let v = pb::connection_response_frame::ConnectionResponseFrameView::unset();
            &&& v.status is None
            &&& v.handshake_data is None
            &&& v.response is None
            &&& v.os_info is None
            &&& v.multiplex_socket_bitmask is None
            &&& v.nearby_connections_version is None
            &&& v.safe_to_disconnect_version is None
            &&& v.location_hint is None
            &&& v.keep_alive_timeout_millis is None
        }),
        ({
            let v = pb::connections_device::ConnectionsDeviceView::unset();
            &&& v.endpoint_id is None
            &&& v.endpoint_type is None
            &&& v.connectivity_info_list is None
            &&& v.endpoint_info is None
        }),
        ({
            let v = pb::connections_device::PresenceDeviceView::unset();
            &&& v.endpoint_id is None
            &&& v.endpoint_type is None
            &&& v.connectivity_info_list is None
            &&& v.device_id is None
            &&& v.device_name is None
            &&& v.device_type is None
            &&& v.device_image_url is None
            &&& v.discovery_medium.len() == 0
            &&& v.actions.len() == 0
            &&& v.identity_type.len() == 0
        }),
        ({
            let v = pb::disconnection_frame::DisconnectionFrame::unset();
            &&& v.request_safe_to_disconnect is None
            &&& v.ack_safe_to_disconnect is None
        }),
        ({
            let v = pb::keep_alive_frame::KeepAliveFrame::unset();
            &&& v.ack is None
            &&& v.seq_num is None
        }),
        ({
            let v = pb::location_hint::LocationHintView::unset();
            &&& v.location is None
            &&& v.format is None
        }),
        ({
            let v = pb::medium_metadata::MediumMetadataView::unset();
            &&& v.supports_5_ghz is None
            &&& v.bssid is None
            &&& v.ip_address is None
            &&& v.supports_6_ghz is None
            &&& v.mobile_radio is None
            &&& v.ap_frequency is None
            &&& v.available_channels is None
            &&& v.wifi_direct_cli_usable_channels is None
            &&& v.wifi_lan_usable_channels is None
            &&& v.wifi_aware_usable_channels is None
            &&& v.wifi_hotspot_sta_usable_channels is None
            &&& v.medium_role is None
            &&& v.supported_wifi_direct_auth_types.len() == 0
        }),
        ({
            let v = pb::medium_role::MediumRole::unset();
            &&& v.support_wifi_direct_group_owner is None
            &&& v.support_wifi_direct_group_client is None
            &&& v.support_wifi_hotspot_host is None
            &&& v.support_wifi_hotspot_client is None
            &&& v.support_wifi_aware_publisher is None
            &&& v.support_wifi_aware_subscriber is None
            &&& v.support_awdl_publisher is None
            &&& v.support_awdl_subscriber is None
        }),
        ({
            let v = pb::offline_frame::OfflineFrameView::unset();
            &&& v.version is None
            &&& v.v1 is None
        }),
        ({
            let v = pb::os_info::OsInfo::unset();
            &&& v.type_ is None
        }),
        ({
            let v = pb::paired_key_encryption_frame::PairedKeyEncryptionFrameView::unset();
            &&& v.signed_data is None
        }),
        ({
            let v = ptf::control_message::ControlMessage::unset();
            &&& v.event is None
            &&& v.offset is None
        }),
        ({
            let v = ptf::PayloadTransferFrameView::unset();
            &&& v.packet_type is None
            &&& v.payload_header is None
            &&& v.payload_chunk is None
            &&& v.control_message is None
        }),
        ({
            let v = ptf::payload_chunk::PayloadChunkView::unset();
            &&& v.flags is None
            &&& v.offset is None
            &&& v.body is None
            &&& v.index is None
        }),
        ({
            let v = ptf::payload_header::PayloadHeaderView::unset();
            &&& v.id is None
            &&& v.type_ is None
            &&& v.total_size is None
            &&& v.is_sensitive is None
            &&& v.file_name is None
            &&& v.parent_folder is None
            &&& v.last_modified_timestamp_millis is None
        }),
        ({
            let v = pb::service_address::ServiceAddressView::unset();
            &&& v.ip_address is None
            &&& v.port is None
        }),
        ({
            let v = pb::usable_channels::AvailableChannelsView::unset();
            &&& v.channels.len() == 0
        }),
        ({
            let v = pb::usable_channels::WifiDirectCliUsableChannelsView::unset();
            &&& v.channels.len() == 0
        }),
        ({
            let v = pb::usable_channels::WifiLanUsableChannelsView::unset();
            &&& v.channels.len() == 0
        }),
        ({
            let v = pb::usable_channels::WifiAwareUsableChannelsView::unset();
            &&& v.channels.len() == 0
        }),
        ({
            let v = pb::usable_channels::WifiHotspotStaUsableChannelsView::unset();
            &&& v.channels.len() == 0
        }),
        ({
            let v = pb::v1_frame::V1FrameView::unset();
            &&& v.type_ is None
            &&& v.connection_request is None
            &&& v.connection_response is None
            &&& v.payload_transfer is None
            &&& v.bandwidth_upgrade_negotiation is None
            &&& v.keep_alive is None
            &&& v.disconnection is None
            &&& v.paired_key_encryption is None
            &&& v.authentication_message is None
            &&& v.authentication_result is None
            &&& v.auto_resume is None
            &&& v.auto_reconnect is None
            &&& v.bandwidth_upgrade_retry is None
        }),
{
}

/// A field of another number does not matter for what is held under a number. One of that
/// number comes after those before it.
pub proof fn lemma_other_fields_skipped(fields: Seq<FieldView>, field: FieldView, number: u32)
    ensures
        message::values_of(fields.push(field), number) == (if field.number == number {
            message::values_of(fields, number).push(field.value)
        } else {
            message::values_of(fields, number)
        }),
        message::values_of(Seq::empty(), number).len() == 0,
{
    assert(fields.push(field).drop_last() =~= fields);
}

/// A key is a varint: its low three bits are the kind of the value, and the rest is the
/// number of the field, which is not 0. There are six kinds.
pub proof fn lemma_key_read(bytes: Seq<u8>, key: u64, width: nat)
    requires
        wire::varint_at(bytes) == Some((key, width)),
    ensures
        wire::key_at(bytes) == (if key < 8 || key > 0xffff_ffff || key % 8 >= 6 {
            None
        } else {
            Some(((key / 8) as u32, (key % 8) as u8, width))
        }),
{
}

/// How a field is read goes by its kind: 0 is a varint, 2 a length and as many bytes, 5 and 1
/// four and eight bytes that are skipped. A field whose bytes are not all there is
/// malformed.
pub proof fn lemma_field_read(bytes: Seq<u8>, number: u32, kind: u8, width: nat, limit: nat)
    requires
        wire::key_at(bytes) == Some((number, kind, width)),
        limit > 0,
    ensures
        ({
            let rest = bytes.skip(width as int);
            &&& kind == 0 ==> wire::field_at(bytes, limit) == (match wire::varint_at(rest) {
                Some((v, n)) => Some(
                    (FieldView { number, value: ValueView::Varint(v) }, width + n),
                ),
                None => None,
            })
            &&& kind == 2 ==> match wire::varint_at(rest) {
                Some((len, n)) => if n + len <= rest.len() {
                    wire::field_at(bytes, limit) == Some(
                        (
                            FieldView {
                                number,
                                value: ValueView::Bytes(rest.subrange(n as int, n + len)),
                            },
                            width + n + len as nat,
                        ),
                    )
                } else {
                    wire::field_at(bytes, limit) is None
                },
                None => wire::field_at(bytes, limit) is None,
            }
            &&& kind == 5 ==> wire::field_at(bytes, limit) == (if rest.len() >= 4 {
                Some((FieldView { number, value: ValueView::Other }, width + 4))
            } else {
                None
            })
            &&& kind == 1 ==> wire::field_at(bytes, limit) == (if rest.len() >= 8 {
                Some((FieldView { number, value: ValueView::Other }, width + 8))
            } else {
                None
            })
            &&& kind == 4 ==> wire::field_at(bytes, limit) is None
        }),
{
}

/// A group, of kind 3, is skipped up to its end, of kind 4, which bears the number of the
/// group; what stands between is skipped field by field. A group that ends under another
/// number, or within which fields are nested too deep, is malformed.
pub proof fn lemma_group_skipped(
    bytes: Seq<u8>,
    number: u32,
    width: nat,
    inner: u32,
    kind: u8,
    k: nat,
    n: nat,
    limit: nat,
)
    requires
        wire::key_at(bytes) == Some((number, 3u8, width)),
        wire::key_at(bytes.skip(width as int)) == Some((inner, kind, k)),
    ensures
        ({
            let within = bytes.skip(width as int);
            let other = FieldView { number, value: ValueView::Other };
            &&& limit > 0 && kind == 4 && inner == number ==> wire::field_at(bytes, limit) == Some(
                (other, width + k),
            )
            &&& kind == 4 && inner != number ==> wire::field_at(bytes, limit) is None
            &&& limit == 0 ==> wire::field_at(bytes, limit) is None
            &&& limit > 0 && kind != 4 && wire::value_width(
                inner,
                kind,
                within.skip(k as int),
                (limit - 1) as nat,
            ) == Some(n) && 0 < k && k + n <= within.len() ==> wire::group_width(
                number,
                within,
                limit,
            ) == (match wire::group_width(number, within.skip((k + n) as int), limit) {
                Some(rest) => Some(k + n + rest),
                None => None,
            })
            &&& limit > 0 && kind != 4 && wire::value_width(
                inner,
                kind,
                within.skip(k as int),
                (limit - 1) as nat,
            ) is None ==> wire::field_at(bytes, limit) is None
        }),
{
    reveal_with_fuel(wire::value_width, 2);
    reveal_with_fuel(wire::group_width, 2);
}

/// A run of fields is read one after the other, to the end.
pub proof fn lemma_fields_read(bytes: Seq<u8>, field: FieldView, width: nat, limit: nat)
    requires
        wire::field_at(bytes, limit) == Some((field, width)),
        0 < width <= bytes.len(),
    ensures
        wire::split(bytes, limit) == (match wire::split(bytes.skip(width as int), limit) {
            Some(rest) => Some(seq![field] + rest),
            None => None,
        }),
        wire::split(Seq::empty(), limit) == Some(Seq::<FieldView>::empty()),
{
}

/// Repeated numbers are read whether they come one by one or as a run, and in order.
pub proof fn lemma_repeated_numbers_read(values: Seq<ValueView>, bits: u64, run: Seq<u8>)
    ensures
        message::ints_of(Seq::empty()) == Some(Seq::<i32>::empty()),
        message::ints_of(values) matches Some(front) ==> {
            &&& message::ints_of(values.push(ValueView::Varint(bits))) == Some(
                front.push(message::int32_from(bits)),
            )
            &&& message::unpacked(run) matches Some(more) ==> message::ints_of(
                values.push(ValueView::Bytes(run)),
            ) == Some(front + more)
            &&& message::unpacked(run) is None ==> message::ints_of(
                values.push(ValueView::Bytes(run)),
            ) is None
            &&& message::ints_of(values.push(ValueView::Other)) is None
        },
        message::unpacked(Seq::empty()) == Some(Seq::<i32>::empty()),
        message::unpacked_longs(Seq::empty()) == Some(Seq::<i64>::empty()),
{
    assert(values.push(ValueView::Varint(bits)).drop_last() =~= values);
    assert(values.push(ValueView::Bytes(run)).drop_last() =~= values);
    assert(values.push(ValueView::Other).drop_last() =~= values);
}

/// A message is read from all of its bytes, with messages and groups nested up to a hundred
/// deep.
pub proof fn lemma_read_whole<M: Message>(bytes: Seq<u8>)
    ensures
        message::decoded::<M>(bytes) == (match wire::split(bytes, 100) {
            Some(fields) => M::from_fields(fields, 100),
            None => None,
        }),
{
}

/// Numbers in a run stand one after the other, and are read in that order.
pub proof fn lemma_runs_in_order(
    values: Seq<ValueView>,
    small: Seq<i32>,
    next: i32,
    large: Seq<i64>,
    next_large: i64,
    bits: u64,
    rest: Seq<u8>,
)
    ensures
        message::packed(small.push(next)) == message::packed(small) + wire::varint_bytes(
            message::int32_bits(next) as nat,
        ),
        message::packed_longs(large.push(next_large)) == message::packed_longs(large)
            + wire::varint_bytes(message::int64_bits(next_large) as nat),
        message::unpacked(wire::varint_bytes(bits as nat) + rest) == (match message::unpacked(
            rest,
        ) {
            Some(more) => Some(seq![message::int32_from(bits)] + more),
            None => None,
        }),
        message::unpacked_longs(wire::varint_bytes(bits as nat) + rest) == (
        match message::unpacked_longs(rest) {
            Some(more) => Some(seq![message::int64_from(bits)] + more),
            None => None,
        }),
        message::packed_values(small.push(next)) == seq![
            ValueView::Bytes(message::packed(small.push(next))),
        ],
        message::packed_values(Seq::empty()).len() == 0,
        message::packed_longs_values(large.push(next_large)) == seq![
            ValueView::Bytes(message::packed_longs(large.push(next_large))),
        ],
        message::packed_longs_values(Seq::empty()).len() == 0,
        message::ints_values(small.push(next)) == message::ints_values(small).push(
            ValueView::Varint(message::int32_bits(next)),
        ),
        message::longs_of(values) matches Some(front) ==> {
            &&& message::longs_of(values.push(ValueView::Varint(bits))) == Some(
                front.push(message::int64_from(bits)),
            )
            &&& message::unpacked_longs(rest) matches Some(more) ==> message::longs_of(
                values.push(ValueView::Bytes(rest)),
            ) == Some(front + more)
            &&& message::longs_of(values.push(ValueView::Other)) is None
        },
        message::longs_of(Seq::empty()) == Some(Seq::<i64>::empty()),
{
    assert(small.push(next).drop_last() =~= small);
    assert(large.push(next_large).drop_last() =~= large);
    wire::lemma_varint_round_trip(bits, rest);
    let n = wire::varint_bytes(bits as nat).len() as int;
    assert((wire::varint_bytes(bits as nat) + rest).skip(n) =~= rest);
    assert(message::ints_values(small.push(next)) =~= message::ints_values(small).push(
        ValueView::Varint(message::int32_bits(next)),
    ));
    assert(values.push(ValueView::Varint(bits)).drop_last() =~= values);
    assert(values.push(ValueView::Bytes(rest)).drop_last() =~= values);
    assert(values.push(ValueView::Other).drop_last() =~= values);
}

/// What is set is written once, and what is not set is not written. Text is written in
/// UTF-8, and read from it.
pub proof fn lemma_set_written(
    small: i32,
    large: i64,
    word: u32,
    truth: bool,
    bytes: Seq<u8>,
    text: Seq<char>,
)
    ensures
        message::int32_values(Some(small)) == seq![ValueView::Varint(message::int32_bits(small))],
        message::int64_values(Some(large)) == seq![ValueView::Varint(message::int64_bits(large))],
        message::uint32_values(Some(word)) == seq![ValueView::Varint(word as u64)],
        message::bool_values(Some(truth)) == seq![ValueView::Varint(message::bool_bits(truth))],
        message::bytes_values(Some(bytes)) == seq![ValueView::Bytes(bytes)],
        message::string_values(Some(text)) == seq![ValueView::Bytes(vstd::utf8::encode_utf8(text))],
        message::int32_values(None).len() == 0,
        message::int64_values(None).len() == 0,
        message::uint32_values(None).len() == 0,
        message::bool_values(None).len() == 0,
        message::bytes_values(None).len() == 0,
        message::string_values(None).len() == 0,
        vstd::utf8::valid_utf8(bytes) ==> message::string_of(seq![ValueView::Bytes(bytes)]) == Some(
            Some(vstd::utf8::decode_utf8(bytes)),
        ),
{
    let one = seq![ValueView::Bytes(bytes)];
    assert(one[0] == ValueView::Bytes(bytes));
}

/// A message that occurs twice is read as one whose fields are those of both.
pub proof fn lemma_occurrences_merged<M: Message>(
    first: Seq<u8>,
    second: Seq<u8>,
    limit: nat,
)
    requires
        limit > 0,
    ensures
        message::message_of::<M>(
            seq![ValueView::Bytes(first), ValueView::Bytes(second)],
            limit,
        ) == (match (
            wire::split(first, (limit - 1) as nat),
            wire::split(second, (limit - 1) as nat),
        ) {
            (Some(a), Some(b)) => match M::from_fields(a + b, (limit - 1) as nat) {
                Some(v) => Some(Some(v)),
                None => None,
            },
            _ => None,
        }),
        message::message_of::<M>(seq![ValueView::Bytes(first)], 0) is None,
        message::message_of::<M>(seq![ValueView::Other], limit) is None,
{
    let one = seq![ValueView::Bytes(first)];
    let both = seq![ValueView::Bytes(first), ValueView::Bytes(second)];
    reveal_with_fuel(message::merged, 3);
    assert(one.drop_last() =~= Seq::empty());
    assert(both.drop_last() =~= one);
    if let Some(a) = wire::split(first, (limit - 1) as nat) {
        assert(Seq::<FieldView>::empty() + a =~= a);
    }
}

/// A message within a message is the fields of its bytes.
pub proof fn lemma_nested_read<M: Message>(bytes: Seq<u8>, limit: nat)
    requires
        limit > 0,
    ensures
        message::message_of::<M>(seq![ValueView::Bytes(bytes)], limit) == (match wire::split(
            bytes,
            (limit - 1) as nat,
        ) {
            Some(fields) => match M::from_fields(fields, (limit - 1) as nat) {
                Some(v) => Some(Some(v)),
                None => None,
            },
            None => None,
        }),
        message::message_of::<M>(Seq::empty(), limit) == Some(None::<M::V>),
{
    let one = seq![ValueView::Bytes(bytes)];
    reveal_with_fuel(message::merged, 2);
    assert(one.drop_last() =~= Seq::empty());
    if let Some(fields) = wire::split(bytes, (limit - 1) as nat) {
        assert(Seq::<FieldView>::empty() + fields =~= fields);
    }
}

// ---------------------------------------------------------------------------
// Enumerations
// ---------------------------------------------------------------------------

/// The numbers of `auto_reconnect_frame::EventType`.
pub proof fn lemma_auto_reconnect_frame_event_type_numbers()
    ensures
        pb::auto_reconnect_frame::EventType::UnknownEventType.value() == 0,
        pb::auto_reconnect_frame::EventType::ClientIntroduction.value() == 1,
        pb::auto_reconnect_frame::EventType::ClientIntroductionAck.value() == 2,
{
}

/// The numbers of `auto_resume_frame::EventType`.
pub proof fn lemma_auto_resume_frame_event_type_numbers()
    ensures
        pb::auto_resume_frame::EventType::UnknownAutoResumeEventType.value() == 0,
        pb::auto_resume_frame::EventType::PayloadResumeTransferStart.value() == 1,
        pb::auto_resume_frame::EventType::PayloadResumeTransferAck.value() == 2,
{
}

/// The numbers of `bandwidth_upgrade_negotiation_frame::EventType`.
pub proof fn lemma_bandwidth_upgrade_negotiation_frame_event_type_numbers()
    ensures
        bwu::EventType::UnknownEventType.value() == 0,
        bwu::EventType::UpgradePathAvailable.value() == 1,
        bwu::EventType::LastWriteToPriorChannel.value() == 2,
        bwu::EventType::SafeToClosePriorChannel.value() == 3,
        bwu::EventType::ClientIntroduction.value() == 4,
        bwu::EventType::UpgradeFailure.value() == 5,
        bwu::EventType::ClientIntroductionAck.value() == 6,
        bwu::EventType::UpgradePathRequest.value() == 7,
{
}

/// The numbers of `bandwidth_upgrade_negotiation_frame::upgrade_path_info::Medium`.
pub proof fn lemma_upgrade_path_info_medium_numbers()
    ensures
        upi::Medium::UnknownMedium.value() == 0,
        upi::Medium::Mdns.value() == 1,
        upi::Medium::Bluetooth.value() == 2,
        upi::Medium::WifiHotspot.value() == 3,
        upi::Medium::Ble.value() == 4,
        upi::Medium::WifiLan.value() == 5,
        upi::Medium::WifiAware.value() == 6,
        upi::Medium::Nfc.value() == 7,
        upi::Medium::WifiDirect.value() == 8,
        upi::Medium::WebRtc.value() == 9,
        upi::Medium::Usb.value() == 11,
        upi::Medium::WebRtcNonCellular.value() == 12,
        upi::Medium::Awdl.value() == 13,
{
}

/// The numbers of `connection_request_frame::Medium`.
pub proof fn lemma_connection_request_frame_medium_numbers()
    ensures
        crf::Medium::UnknownMedium.value() == 0,
        crf::Medium::Mdns.value() == 1,
        crf::Medium::Bluetooth.value() == 2,
        crf::Medium::WifiHotspot.value() == 3,
        crf::Medium::Ble.value() == 4,
        crf::Medium::WifiLan.value() == 5,
        crf::Medium::WifiAware.value() == 6,
        crf::Medium::Nfc.value() == 7,
        crf::Medium::WifiDirect.value() == 8,
        crf::Medium::WebRtc.value() == 9,
        crf::Medium::BleL2cap.value() == 10,
        crf::Medium::Usb.value() == 11,
        crf::Medium::WebRtcNonCellular.value() == 12,
        crf::Medium::Awdl.value() == 13,
{
}

/// The numbers of `connection_request_frame::ConnectionMode`.
pub proof fn lemma_connection_mode_numbers()
    ensures
        crf::ConnectionMode::Legacy.value() == 0,
        crf::ConnectionMode::Instant.value() == 1,
{
}

/// The numbers of `connection_response_frame::ResponseStatus`.
pub proof fn lemma_response_status_numbers()
    ensures
        pb::connection_response_frame::ResponseStatus::UnknownResponseStatus.value() == 0,
        pb::connection_response_frame::ResponseStatus::Accept.value() == 1,
        pb::connection_response_frame::ResponseStatus::Reject.value() == 2,
{
}

/// The numbers of `connections_device::EndpointType`.
pub proof fn lemma_endpoint_type_numbers()
    ensures
        pb::connections_device::EndpointType::UnknownEndpoint.value() == 0,
        pb::connections_device::EndpointType::ConnectionsEndpoint.value() == 1,
        pb::connections_device::EndpointType::PresenceEndpoint.value() == 2,
{
}

/// The numbers of `location_hint::Format`.
pub proof fn lemma_format_numbers()
    ensures
        pb::location_hint::Format::Unknown.value() == 0,
        pb::location_hint::Format::E164Calling.value() == 1,
        pb::location_hint::Format::Iso31661Alpha2.value() == 2,
{
}

/// The numbers of `medium_metadata::WifiDirectAuthType`.
pub proof fn lemma_wifi_direct_auth_type_numbers()
    ensures
        pb::medium_metadata::WifiDirectAuthType::WifiDirectTypeUnknown.value() == 0,
        pb::medium_metadata::WifiDirectAuthType::WifiDirectWithPassword.value() == 1,
        pb::medium_metadata::WifiDirectAuthType::WifiDirectWithPin.value() == 2,
        pb::medium_metadata::WifiDirectAuthType::WifiDirectWithDeviceName.value() == 3,
{
}

/// The numbers of `offline_frame::Version`.
pub proof fn lemma_version_numbers()
    ensures
        pb::offline_frame::Version::UnknownVersion.value() == 0,
        pb::offline_frame::Version::V1.value() == 1,
{
}

/// The numbers of `os_info::OsType`.
pub proof fn lemma_os_type_numbers()
    ensures
        pb::os_info::OsType::UnknownOsType.value() == 0,
        pb::os_info::OsType::Android.value() == 1,
        pb::os_info::OsType::ChromeOs.value() == 2,
        pb::os_info::OsType::Windows.value() == 3,
        pb::os_info::OsType::Apple.value() == 4,
        pb::os_info::OsType::Linux.value() == 100,
{
}

/// The numbers of `payload_transfer_frame::control_message::EventType`.
pub proof fn lemma_control_message_event_type_numbers()
    ensures
        ptf::control_message::EventType::UnknownEventType.value() == 0,
        ptf::control_message::EventType::PayloadError.value() == 1,
        ptf::control_message::EventType::PayloadCanceled.value() == 2,
        ptf::control_message::EventType::PayloadReceivedAck.value() == 3,
{
}

/// The numbers of `payload_transfer_frame::PacketType`.
pub proof fn lemma_packet_type_numbers()
    ensures
        ptf::PacketType::UnknownPacketType.value() == 0,
        ptf::PacketType::Data.value() == 1,
        ptf::PacketType::Control.value() == 2,
        ptf::PacketType::PayloadAck.value() == 3,
{
}

/// The numbers of `payload_transfer_frame::payload_chunk::Flags`.
pub proof fn lemma_flags_numbers()
    ensures
        ptf::payload_chunk::Flags::LastChunk.value() == 1,
{
}

/// The numbers of `payload_transfer_frame::payload_header::PayloadType`.
pub proof fn lemma_payload_type_numbers()
    ensures
        ptf::payload_header::PayloadType::UnknownPayloadType.value() == 0,
        ptf::payload_header::PayloadType::Bytes.value() == 1,
        ptf::payload_header::PayloadType::File.value() == 2,
        ptf::payload_header::PayloadType::Stream.value() == 3,
{
}

/// The numbers of `v1_frame::FrameType`.
pub proof fn lemma_frame_type_numbers()
    ensures
        pb::v1_frame::FrameType::UnknownFrameType.value() == 0,
        pb::v1_frame::FrameType::ConnectionRequest.value() == 1,
        pb::v1_frame::FrameType::ConnectionResponse.value() == 2,
        pb::v1_frame::FrameType::PayloadTransfer.value() == 3,
        pb::v1_frame::FrameType::BandwidthUpgradeNegotiation.value() == 4,
        pb::v1_frame::FrameType::KeepAlive.value() == 5,
        pb::v1_frame::FrameType::Disconnection.value() == 6,
        pb::v1_frame::FrameType::PairedKeyEncryption.value() == 7,
        pb::v1_frame::FrameType::AuthenticationMessage.value() == 8,
        pb::v1_frame::FrameType::AuthenticationResult.value() == 9,
        pb::v1_frame::FrameType::AutoResume.value() == 10,
        pb::v1_frame::FrameType::AutoReconnect.value() == 11,
        pb::v1_frame::FrameType::BandwidthUpgradeRetry.value() == 12,
{
}

// ---------------------------------------------------------------------------
// Messages
// ---------------------------------------------------------------------------

/// The fields of `authentication_frame::AuthenticationMessageFrame`.
pub proof fn lemma_authentication_message_frame_fields(v: pb::authentication_frame::AuthenticationMessageFrameView)
    ensures
        ({
            let fields = message::all_fields(pb::authentication_frame::AuthenticationMessageFrame::parts(v));
            &&& message::values_of(fields, 1) == message::bytes_values(v.auth_message)
        }),
{
    let parts = pb::authentication_frame::AuthenticationMessageFrame::parts(v);
    message::lemma_part(parts, 0);
}

/// The fields of `authentication_frame::AuthenticationResultFrame`.
pub proof fn lemma_authentication_result_frame_fields(v: pb::authentication_frame::AuthenticationResultFrame)
    ensures
        ({
            let fields = message::all_fields(pb::authentication_frame::AuthenticationResultFrame::parts(v));
            &&& message::values_of(fields, 1) == message::int32_values(v.result)
        }),
{
    let parts = pb::authentication_frame::AuthenticationResultFrame::parts(v);
    message::lemma_part(parts, 0);
}

/// The fields of `auto_reconnect_frame::AutoReconnectFrame`.
pub proof fn lemma_auto_reconnect_frame_fields(v: pb::auto_reconnect_frame::AutoReconnectFrameView)
    ensures
        ({
            let fields = message::all_fields(pb::auto_reconnect_frame::AutoReconnectFrame::parts(v));
            &&& message::values_of(fields, 1) == message::string_values(v.endpoint_id)
            &&& message::values_of(fields, 2) == message::int32_values(v.event_type)
            &&& message::values_of(fields, 3) == message::string_values(v.last_endpoint_id)
        }),
{
    let parts = pb::auto_reconnect_frame::AutoReconnectFrame::parts(v);
    message::lemma_part(parts, 0);
    message::lemma_part(parts, 1);
    message::lemma_part(parts, 2);
}

/// The fields of `auto_resume_frame::AutoResumeFrame`.
pub proof fn lemma_auto_resume_frame_fields(v: pb::auto_resume_frame::AutoResumeFrame)
    ensures
        ({
            let fields = message::all_fields(pb::auto_resume_frame::AutoResumeFrame::parts(v));
            &&& message::values_of(fields, 1) == message::int32_values(v.event_type)
            &&& message::values_of(fields, 2) == message::int64_values(v.pending_payload_id)
            &&& message::values_of(fields, 3) == message::int32_values(v.next_payload_chunk_index)
            &&& message::values_of(fields, 4) == message::int32_values(v.version)
        }),
{
    let parts = pb::auto_resume_frame::AutoResumeFrame::parts(v);
    message::lemma_part(parts, 0);
    message::lemma_part(parts, 1);
    message::lemma_part(parts, 2);
    message::lemma_part(parts, 3);
}

/// The fields of `bandwidth_upgrade_negotiation_frame::client_introduction::ClientIntroduction`.
pub proof fn lemma_client_introduction_fields(v: bwu::client_introduction::ClientIntroductionView)
    ensures
        ({
            let fields = message::all_fields(bwu::client_introduction::ClientIntroduction::parts(v));
            &&& message::values_of(fields, 1) == message::string_values(v.endpoint_id)
            &&& message::values_of(fields, 2) == message::bool_values(v.supports_disabling_encryption)
            &&& message::values_of(fields, 3) == message::string_values(v.last_endpoint_id)
        }),
{
    let parts = bwu::client_introduction::ClientIntroduction::parts(v);
    message::lemma_part(parts, 0);
    message::lemma_part(parts, 1);
    message::lemma_part(parts, 2);
}

/// The fields of `bandwidth_upgrade_negotiation_frame::client_introduction::SafeToClosePriorChannel`.
pub proof fn lemma_safe_to_close_prior_channel_fields(v: bwu::client_introduction::SafeToClosePriorChannel)
    ensures
        ({
            let fields = message::all_fields(bwu::client_introduction::SafeToClosePriorChannel::parts(v));
            &&& message::values_of(fields, 1) == message::int32_values(v.sta_frequency)
        }),
{
    let parts = bwu::client_introduction::SafeToClosePriorChannel::parts(v);
    message::lemma_part(parts, 0);
}

/// The fields of `bandwidth_upgrade_negotiation_frame::BandwidthUpgradeNegotiationFrame`.
pub proof fn lemma_bandwidth_upgrade_negotiation_frame_fields(v: bwu::BandwidthUpgradeNegotiationFrameView)
    ensures
        ({
            let fields = message::all_fields(bwu::BandwidthUpgradeNegotiationFrame::parts(v));
            &&& message::values_of(fields, 1) == message::int32_values(v.event_type)
            &&& message::values_of(fields, 2) == message::message_values::<upi::UpgradePathInfo>(v.upgrade_path_info)
            &&& message::values_of(fields, 3) == message::message_values::<bwu::client_introduction::ClientIntroduction>(v.client_introduction)
            &&& message::values_of(fields, 4) == message::message_values::<bwu::client_introduction::ClientIntroductionAck>(v.client_introduction_ack)
            &&& message::values_of(fields, 5) == message::message_values::<bwu::client_introduction::SafeToClosePriorChannel>(v.safe_to_close_prior_channel)
        }),
{
    let parts = bwu::BandwidthUpgradeNegotiationFrame::parts(v);
    message::lemma_part(parts, 0);
    message::lemma_part(parts, 1);
    message::lemma_part(parts, 2);
    message::lemma_part(parts, 3);
    message::lemma_part(parts, 4);
}

/// The fields of `bandwidth_upgrade_negotiation_frame::upgrade_path_info::WifiHotspotCredentials`.
pub proof fn lemma_wifi_hotspot_credentials_fields(v: upi::WifiHotspotCredentialsView)
    ensures
        ({
            let fields = message::all_fields(upi::WifiHotspotCredentials::parts(v));
            &&& message::values_of(fields, 1) == message::string_values(v.ssid)
            &&& message::values_of(fields, 2) == message::string_values(v.password)
            &&& message::values_of(fields, 3) == message::int32_values(v.port)
            &&& message::values_of(fields, 4) == message::string_values(v.gateway)
            &&& message::values_of(fields, 5) == message::int32_values(v.frequency)
            &&& message::values_of(fields, 6) == message::messages_values::<pb::service_address::ServiceAddress>(v.address_candidates)
        }),
{
    let parts = upi::WifiHotspotCredentials::parts(v);
    message::lemma_part(parts, 0);
    message::lemma_part(parts, 1);
    message::lemma_part(parts, 2);
    message::lemma_part(parts, 3);
    message::lemma_part(parts, 4);
    message::lemma_part(parts, 5);
}

/// The fields of `bandwidth_upgrade_negotiation_frame::upgrade_path_info::WifiLanSocket`.
pub proof fn lemma_wifi_lan_socket_fields(v: upi::WifiLanSocketView)
    ensures
        ({
            let fields = message::all_fields(upi::WifiLanSocket::parts(v));
            &&& message::values_of(fields, 1) == message::bytes_values(v.ip_address)
            &&& message::values_of(fields, 2) == message::int32_values(v.wifi_port)
            &&& message::values_of(fields, 3) == message::messages_values::<pb::service_address::ServiceAddress>(v.address_candidates)
        }),
{
    let parts = upi::WifiLanSocket::parts(v);
    message::lemma_part(parts, 0);
    message::lemma_part(parts, 1);
    message::lemma_part(parts, 2);
}

/// The fields of `bandwidth_upgrade_negotiation_frame::upgrade_path_info::BluetoothCredentials`.
pub proof fn lemma_bluetooth_credentials_fields(v: upi::BluetoothCredentialsView)
    ensures
        ({
            let fields = message::all_fields(upi::BluetoothCredentials::parts(v));
            &&& message::values_of(fields, 1) == message::string_values(v.service_name)
            &&& message::values_of(fields, 2) == message::string_values(v.mac_address)
        }),
{
    let parts = upi::BluetoothCredentials::parts(v);
    message::lemma_part(parts, 0);
    message::lemma_part(parts, 1);
}

/// The fields of `bandwidth_upgrade_negotiation_frame::upgrade_path_info::WifiAwareCredentials`.
pub proof fn lemma_wifi_aware_credentials_fields(v: upi::WifiAwareCredentialsView)
    ensures
        ({
            let fields = message::all_fields(upi::WifiAwareCredentials::parts(v));
            &&& message::values_of(fields, 1) == message::string_values(v.service_id)
            &&& message::values_of(fields, 2) == message::bytes_values(v.service_info)
            &&& message::values_of(fields, 3) == message::string_values(v.password)
        }),
{
    let parts = upi::WifiAwareCredentials::parts(v);
    message::lemma_part(parts, 0);
    message::lemma_part(parts, 1);
    message::lemma_part(parts, 2);
}

/// The fields of `bandwidth_upgrade_negotiation_frame::upgrade_path_info::WifiDirectCredentials`.
pub proof fn lemma_wifi_direct_credentials_fields(v: upi::WifiDirectCredentialsView)
    ensures
        ({
            let fields = message::all_fields(upi::WifiDirectCredentials::parts(v));
            &&& message::values_of(fields, 1) == message::string_values(v.ssid)
            &&& message::values_of(fields, 2) == message::string_values(v.password)
            &&& message::values_of(fields, 3) == message::int32_values(v.port)
            &&& message::values_of(fields, 4) == message::int32_values(v.frequency)
            &&& message::values_of(fields, 5) == message::string_values(v.gateway)
            &&& message::values_of(fields, 6) == message::bytes_values(v.ip_v6_address)
            &&& message::values_of(fields, 7) == message::string_values(v.device_name)
            &&& message::values_of(fields, 8) == message::string_values(v.pin)
        }),
{
    let parts = upi::WifiDirectCredentials::parts(v);
    message::lemma_part(parts, 0);
    message::lemma_part(parts, 1);
    message::lemma_part(parts, 2);
    message::lemma_part(parts, 3);
    message::lemma_part(parts, 4);
    message::lemma_part(parts, 5);
    message::lemma_part(parts, 6);
    message::lemma_part(parts, 7);
}

/// The fields of `bandwidth_upgrade_negotiation_frame::upgrade_path_info::WebRtcCredentials`.
pub proof fn lemma_web_rtc_credentials_fields(v: upi::WebRtcCredentialsView)
    ensures
        ({
            let fields = message::all_fields(upi::WebRtcCredentials::parts(v));
            &&& message::values_of(fields, 1) == message::string_values(v.peer_id)
            &&& message::values_of(fields, 2) == message::message_values::<pb::location_hint::LocationHint>(v.location_hint)
        }),
{
    let parts = upi::WebRtcCredentials::parts(v);
    message::lemma_part(parts, 0);
    message::lemma_part(parts, 1);
}

/// The fields of `bandwidth_upgrade_negotiation_frame::upgrade_path_info::AwdlCredentials`.
pub proof fn lemma_awdl_credentials_fields(v: upi::AwdlCredentialsView)
    ensures
        ({
            let fields = message::all_fields(upi::AwdlCredentials::parts(v));
            &&& message::values_of(fields, 1) == message::string_values(v.service_name)
            &&& message::values_of(fields, 2) == message::string_values(v.service_type)
            &&& message::values_of(fields, 3) == message::string_values(v.password)
        }),
{
    let parts = upi::AwdlCredentials::parts(v);
    message::lemma_part(parts, 0);
    message::lemma_part(parts, 1);
    message::lemma_part(parts, 2);
}

/// The fields of `bandwidth_upgrade_negotiation_frame::upgrade_path_info::UpgradePathRequest`.
pub proof fn lemma_upgrade_path_request_fields(v: upi::UpgradePathRequestView)
    ensures
        ({
            let fields = message::all_fields(upi::UpgradePathRequest::parts(v));
            &&& message::values_of(fields, 1) == message::packed_values(v.mediums)
            &&& message::values_of(fields, 2) == message::message_values::<pb::medium_metadata::MediumMetadata>(v.medium_meta_data)
        }),
{
    let parts = upi::UpgradePathRequest::parts(v);
    message::lemma_part(parts, 0);
    message::lemma_part(parts, 1);
}

/// The fields of `bandwidth_upgrade_negotiation_frame::upgrade_path_info::UpgradePathInfo`.
pub proof fn lemma_upgrade_path_info_fields(v: upi::UpgradePathInfoView)
    ensures
        ({
            let fields = message::all_fields(upi::UpgradePathInfo::parts(v));
            &&& message::values_of(fields, 1) == message::int32_values(v.medium)
            &&& message::values_of(fields, 2) == message::message_values::<upi::WifiHotspotCredentials>(v.wifi_hotspot_credentials)
            &&& message::values_of(fields, 3) == message::message_values::<upi::WifiLanSocket>(v.wifi_lan_socket)
            &&& message::values_of(fields, 4) == message::message_values::<upi::BluetoothCredentials>(v.bluetooth_credentials)
            &&& message::values_of(fields, 5) == message::message_values::<upi::WifiAwareCredentials>(v.wifi_aware_credentials)
            &&& message::values_of(fields, 6) == message::message_values::<upi::WifiDirectCredentials>(v.wifi_direct_credentials)
            &&& message::values_of(fields, 7) == message::bool_values(v.supports_disabling_encryption)
            &&& message::values_of(fields, 8) == message::message_values::<upi::WebRtcCredentials>(v.web_rtc_credentials)
            &&& message::values_of(fields, 9) == message::bool_values(v.supports_client_introduction_ack)
            &&& message::values_of(fields, 10) == message::message_values::<upi::UpgradePathRequest>(v.upgrade_path_request)
            &&& message::values_of(fields, 11) == message::message_values::<upi::AwdlCredentials>(v.awdl_credentials)
        }),
{
    let parts = upi::UpgradePathInfo::parts(v);
    message::lemma_part(parts, 0);
    message::lemma_part(parts, 1);
    message::lemma_part(parts, 2);
    message::lemma_part(parts, 3);
    message::lemma_part(parts, 4);
    message::lemma_part(parts, 5);
    message::lemma_part(parts, 6);
    message::lemma_part(parts, 7);
    message::lemma_part(parts, 8);
    message::lemma_part(parts, 9);
    message::lemma_part(parts, 10);
}

/// The fields of `bandwidth_upgrade_retry_frame::BandwidthUpgradeRetryFrame`.
pub proof fn lemma_bandwidth_upgrade_retry_frame_fields(v: pb::bandwidth_upgrade_retry_frame::BandwidthUpgradeRetryFrameView)
    ensures
        ({
            let fields = message::all_fields(pb::bandwidth_upgrade_retry_frame::BandwidthUpgradeRetryFrame::parts(v));
            &&& message::values_of(fields, 1) == message::ints_values(v.supported_medium)
            &&& message::values_of(fields, 2) == message::bool_values(v.is_request)
        }),
{
    let parts = pb::bandwidth_upgrade_retry_frame::BandwidthUpgradeRetryFrame::parts(v);
    message::lemma_part(parts, 0);
    message::lemma_part(parts, 1);
}

/// The fields of `connection_request_frame::ConnectionRequestFrame`.
pub proof fn lemma_connection_request_frame_fields(v: crf::ConnectionRequestFrameView)
    ensures
        ({
            let fields = message::all_fields(crf::ConnectionRequestFrame::parts(v));
            &&& message::values_of(fields, 1) == message::string_values(v.endpoint_id)
            &&& message::values_of(fields, 2) == message::string_values(v.endpoint_name)
            &&& message::values_of(fields, 3) == message::bytes_values(v.handshake_data)
            &&& message::values_of(fields, 4) == message::int32_values(v.nonce)
            &&& message::values_of(fields, 5) == message::ints_values(v.mediums)
            &&& message::values_of(fields, 6) == message::bytes_values(v.endpoint_info)
            &&& message::values_of(fields, 7) == message::message_values::<pb::medium_metadata::MediumMetadata>(v.medium_metadata)
            &&& message::values_of(fields, 8) == message::int32_values(v.keep_alive_interval_millis)
            &&& message::values_of(fields, 9) == message::int32_values(v.keep_alive_timeout_millis)
            &&& message::values_of(fields, 10) == message::int32_values(v.device_type)
            &&& message::values_of(fields, 11) == message::bytes_values(v.device_info)
            &&& message::values_of(fields, 12) == message::message_values::<pb::connections_device::ConnectionsDevice>(crf::connections_device(v.device))
            &&& message::values_of(fields, 13) == message::message_values::<pb::connections_device::PresenceDevice>(crf::presence_device(v.device))
            &&& message::values_of(fields, 14) == message::int32_values(v.connection_mode)
            &&& message::values_of(fields, 15) == message::message_values::<pb::location_hint::LocationHint>(v.location_hint)
        }),
{
    let parts = crf::ConnectionRequestFrame::parts(v);
    message::lemma_part(parts, 0);
    message::lemma_part(parts, 1);
    message::lemma_part(parts, 2);
    message::lemma_part(parts, 3);
    message::lemma_part(parts, 4);
    message::lemma_part(parts, 5);
    message::lemma_part(parts, 6);
    message::lemma_part(parts, 7);
    message::lemma_part(parts, 8);
    message::lemma_part(parts, 9);
    message::lemma_part(parts, 10);
    message::lemma_part(parts, 11);
    message::lemma_part(parts, 12);
    message::lemma_part(parts, 13);
    message::lemma_part(parts, 14);
}

/// The fields of `connection_response_frame::ConnectionResponseFrame`.
pub proof fn lemma_connection_response_frame_fields(v: pb::connection_response_frame::ConnectionResponseFrameView)
    ensures
        ({
            let fields = message::all_fields(pb::connection_response_frame::ConnectionResponseFrame::parts(v));
            &&& message::values_of(fields, 1) == message::int32_values(v.status)
            &&& message::values_of(fields, 2) == message::bytes_values(v.handshake_data)
            &&& message::values_of(fields, 3) == message::int32_values(v.response)
            &&& message::values_of(fields, 4) == message::message_values::<pb::os_info::OsInfo>(v.os_info)
            &&& message::values_of(fields, 5) == message::int32_values(v.multiplex_socket_bitmask)
            &&& message::values_of(fields, 6) == message::int32_values(v.nearby_connections_version)
            &&& message::values_of(fields, 7) == message::int32_values(v.safe_to_disconnect_version)
            &&& message::values_of(fields, 8) == message::message_values::<pb::location_hint::LocationHint>(v.location_hint)
            &&& message::values_of(fields, 9) == message::int32_values(v.keep_alive_timeout_millis)
        }),
{
    let parts = pb::connection_response_frame::ConnectionResponseFrame::parts(v);
    message::lemma_part(parts, 0);
    message::lemma_part(parts, 1);
    message::lemma_part(parts, 2);
    message::lemma_part(parts, 3);
    message::lemma_part(parts, 4);
    message::lemma_part(parts, 5);
    message::lemma_part(parts, 6);
    message::lemma_part(parts, 7);
    message::lemma_part(parts, 8);
}

/// The fields of `connections_device::ConnectionsDevice`.
pub proof fn lemma_connections_device_fields(v: pb::connections_device::ConnectionsDeviceView)
    ensures
        ({
            let fields = message::all_fields(pb::connections_device::ConnectionsDevice::parts(v));
            &&& message::values_of(fields, 1) == message::string_values(v.endpoint_id)
            &&& message::values_of(fields, 2) == message::int32_values(v.endpoint_type)
            &&& message::values_of(fields, 3) == message::bytes_values(v.connectivity_info_list)
            &&& message::values_of(fields, 4) == message::bytes_values(v.endpoint_info)
        }),
{
    let parts = pb::connections_device::ConnectionsDevice::parts(v);
    message::lemma_part(parts, 0);
    message::lemma_part(parts, 1);
    message::lemma_part(parts, 2);
    message::lemma_part(parts, 3);
}

/// The fields of `connections_device::PresenceDevice`.
pub proof fn lemma_presence_device_fields(v: pb::connections_device::PresenceDeviceView)
    ensures
        ({
            let fields = message::all_fields(pb::connections_device::PresenceDevice::parts(v));
            &&& message::values_of(fields, 1) == message::string_values(v.endpoint_id)
            &&& message::values_of(fields, 2) == message::int32_values(v.endpoint_type)
            &&& message::values_of(fields, 3) == message::bytes_values(v.connectivity_info_list)
            &&& message::values_of(fields, 4) == message::int64_values(v.device_id)
            &&& message::values_of(fields, 5) == message::string_values(v.device_name)
            &&& message::values_of(fields, 6) == message::int32_values(v.device_type)
            &&& message::values_of(fields, 7) == message::string_values(v.device_image_url)
            &&& message::values_of(fields, 8) == message::packed_values(v.discovery_medium)
            &&& message::values_of(fields, 9) == message::packed_values(v.actions)
            &&& message::values_of(fields, 10) == message::packed_longs_values(v.identity_type)
        }),
{
    let parts = pb::connections_device::PresenceDevice::parts(v);
    message::lemma_part(parts, 0);
    message::lemma_part(parts, 1);
    message::lemma_part(parts, 2);
    message::lemma_part(parts, 3);
    message::lemma_part(parts, 4);
    message::lemma_part(parts, 5);
    message::lemma_part(parts, 6);
    message::lemma_part(parts, 7);
    message::lemma_part(parts, 8);
    message::lemma_part(parts, 9);
}

/// The fields of `disconnection_frame::DisconnectionFrame`.
pub proof fn lemma_disconnection_frame_fields(v: pb::disconnection_frame::DisconnectionFrame)
    ensures
        ({
            let fields = message::all_fields(pb::disconnection_frame::DisconnectionFrame::parts(v));
            &&& message::values_of(fields, 1) == message::bool_values(v.request_safe_to_disconnect)
            &&& message::values_of(fields, 2) == message::bool_values(v.ack_safe_to_disconnect)
        }),
{
    let parts = pb::disconnection_frame::DisconnectionFrame::parts(v);
    message::lemma_part(parts, 0);
    message::lemma_part(parts, 1);
}

/// The fields of `keep_alive_frame::KeepAliveFrame`.
pub proof fn lemma_keep_alive_frame_fields(v: pb::keep_alive_frame::KeepAliveFrame)
    ensures
        ({
            let fields = message::all_fields(pb::keep_alive_frame::KeepAliveFrame::parts(v));
            &&& message::values_of(fields, 1) == message::bool_values(v.ack)
            &&& message::values_of(fields, 2) == message::uint32_values(v.seq_num)
        }),
{
    let parts = pb::keep_alive_frame::KeepAliveFrame::parts(v);
    message::lemma_part(parts, 0);
    message::lemma_part(parts, 1);
}

/// The fields of `location_hint::LocationHint`.
pub proof fn lemma_location_hint_fields(v: pb::location_hint::LocationHintView)
    ensures
        ({
            let fields = message::all_fields(pb::location_hint::LocationHint::parts(v));
            &&& message::values_of(fields, 1) == message::string_values(v.location)
            &&& message::values_of(fields, 2) == message::int32_values(v.format)
        }),
{
    let parts = pb::location_hint::LocationHint::parts(v);
    message::lemma_part(parts, 0);
    message::lemma_part(parts, 1);
}

/// The fields of `medium_metadata::MediumMetadata`.
pub proof fn lemma_medium_metadata_fields(v: pb::medium_metadata::MediumMetadataView)
    ensures
        ({
            let fields = message::all_fields(pb::medium_metadata::MediumMetadata::parts(v));
            &&& message::values_of(fields, 1) == message::bool_values(v.supports_5_ghz)
            &&& message::values_of(fields, 2) == message::string_values(v.bssid)
            &&& message::values_of(fields, 3) == message::bytes_values(v.ip_address)
            &&& message::values_of(fields, 4) == message::bool_values(v.supports_6_ghz)
            &&& message::values_of(fields, 5) == message::bool_values(v.mobile_radio)
            &&& message::values_of(fields, 6) == message::int32_values(v.ap_frequency)
            &&& message::values_of(fields, 7) == message::message_values::<pb::usable_channels::AvailableChannels>(v.available_channels)
            &&& message::values_of(fields, 8) == message::message_values::<pb::usable_channels::WifiDirectCliUsableChannels>(v.wifi_direct_cli_usable_channels)
            &&& message::values_of(fields, 9) == message::message_values::<pb::usable_channels::WifiLanUsableChannels>(v.wifi_lan_usable_channels)
            &&& message::values_of(fields, 10) == message::message_values::<pb::usable_channels::WifiAwareUsableChannels>(v.wifi_aware_usable_channels)
            &&& message::values_of(fields, 11) == message::message_values::<pb::usable_channels::WifiHotspotStaUsableChannels>(v.wifi_hotspot_sta_usable_channels)
            &&& message::values_of(fields, 12) == message::message_values::<pb::medium_role::MediumRole>(v.medium_role)
            &&& message::values_of(fields, 13) == message::ints_values(v.supported_wifi_direct_auth_types)
        }),
{
    let parts = pb::medium_metadata::MediumMetadata::parts(v);
    message::lemma_part(parts, 0);
    message::lemma_part(parts, 1);
    message::lemma_part(parts, 2);
    message::lemma_part(parts, 3);
    message::lemma_part(parts, 4);
    message::lemma_part(parts, 5);
    message::lemma_part(parts, 6);
    message::lemma_part(parts, 7);
    message::lemma_part(parts, 8);
    message::lemma_part(parts, 9);
    message::lemma_part(parts, 10);
    message::lemma_part(parts, 11);
    message::lemma_part(parts, 12);
}

/// The fields of `medium_role::MediumRole`.
pub proof fn lemma_medium_role_fields(v: pb::medium_role::MediumRole)
    ensures
        ({
            let fields = message::all_fields(pb::medium_role::MediumRole::parts(v));
            &&& message::values_of(fields, 1) == message::bool_values(v.support_wifi_direct_group_owner)
            &&& message::values_of(fields, 2) == message::bool_values(v.support_wifi_direct_group_client)
            &&& message::values_of(fields, 3) == message::bool_values(v.support_wifi_hotspot_host)
            &&& message::values_of(fields, 4) == message::bool_values(v.support_wifi_hotspot_client)
            &&& message::values_of(fields, 5) == message::bool_values(v.support_wifi_aware_publisher)
            &&& message::values_of(fields, 6) == message::bool_values(v.support_wifi_aware_subscriber)
            &&& message::values_of(fields, 7) == message::bool_values(v.support_awdl_publisher)
            &&& message::values_of(fields, 8) == message::bool_values(v.support_awdl_subscriber)
        }),
{
    let parts = pb::medium_role::MediumRole::parts(v);
    message::lemma_part(parts, 0);
    message::lemma_part(parts, 1);
    message::lemma_part(parts, 2);
    message::lemma_part(parts, 3);
    message::lemma_part(parts, 4);
    message::lemma_part(parts, 5);
    message::lemma_part(parts, 6);
    message::lemma_part(parts, 7);
}

/// The fields of `offline_frame::OfflineFrame`.
pub proof fn lemma_offline_frame_fields(v: pb::offline_frame::OfflineFrameView)
    ensures
        ({
            let fields = message::all_fields(pb::offline_frame::OfflineFrame::parts(v));
            &&& message::values_of(fields, 1) == message::int32_values(v.version)
            &&& message::values_of(fields, 2) == message::message_values::<pb::v1_frame::V1Frame>(v.v1)
        }),
{
    let parts = pb::offline_frame::OfflineFrame::parts(v);
    message::lemma_part(parts, 0);
    message::lemma_part(parts, 1);
}

/// The fields of `os_info::OsInfo`.
pub proof fn lemma_os_info_fields(v: pb::os_info::OsInfo)
    ensures
        ({
            let fields = message::all_fields(pb::os_info::OsInfo::parts(v));
            &&& message::values_of(fields, 1) == message::int32_values(v.type_)
        }),
{
    let parts = pb::os_info::OsInfo::parts(v);
    message::lemma_part(parts, 0);
}

/// The fields of `paired_key_encryption_frame::PairedKeyEncryptionFrame`.
pub proof fn lemma_paired_key_encryption_frame_fields(v: pb::paired_key_encryption_frame::PairedKeyEncryptionFrameView)
    ensures
        ({
            let fields = message::all_fields(pb::paired_key_encryption_frame::PairedKeyEncryptionFrame::parts(v));
            &&& message::values_of(fields, 1) == message::bytes_values(v.signed_data)
        }),
{
    let parts = pb::paired_key_encryption_frame::PairedKeyEncryptionFrame::parts(v);
    message::lemma_part(parts, 0);
}

/// The fields of `payload_transfer_frame::control_message::ControlMessage`.
pub proof fn lemma_control_message_fields(v: ptf::control_message::ControlMessage)
    ensures
        ({
            let fields = message::all_fields(ptf::control_message::ControlMessage::parts(v));
            &&& message::values_of(fields, 1) == message::int32_values(v.event)
            &&& message::values_of(fields, 2) == message::int64_values(v.offset)
        }),
{
    let parts = ptf::control_message::ControlMessage::parts(v);
    message::lemma_part(parts, 0);
    message::lemma_part(parts, 1);
}

/// The fields of `payload_transfer_frame::PayloadTransferFrame`.
pub proof fn lemma_payload_transfer_frame_fields(v: ptf::PayloadTransferFrameView)
    ensures
        ({
            let fields = message::all_fields(ptf::PayloadTransferFrame::parts(v));
            &&& message::values_of(fields, 1) == message::int32_values(v.packet_type)
            &&& message::values_of(fields, 2) == message::message_values::<ptf::payload_header::PayloadHeader>(v.payload_header)
            &&& message::values_of(fields, 3) == message::message_values::<ptf::payload_chunk::PayloadChunk>(v.payload_chunk)
            &&& message::values_of(fields, 4) == message::message_values::<ptf::control_message::ControlMessage>(v.control_message)
        }),
{
    let parts = ptf::PayloadTransferFrame::parts(v);
    message::lemma_part(parts, 0);
    message::lemma_part(parts, 1);
    message::lemma_part(parts, 2);
    message::lemma_part(parts, 3);
}

/// The fields of `payload_transfer_frame::payload_chunk::PayloadChunk`.
pub proof fn lemma_payload_chunk_fields(v: ptf::payload_chunk::PayloadChunkView)
    ensures
        ({
            let fields = message::all_fields(ptf::payload_chunk::PayloadChunk::parts(v));
            &&& message::values_of(fields, 1) == message::int32_values(v.flags)
            &&& message::values_of(fields, 2) == message::int64_values(v.offset)
            &&& message::values_of(fields, 3) == message::bytes_values(v.body)
            &&& message::values_of(fields, 4) == message::int32_values(v.index)
        }),
{
    let parts = ptf::payload_chunk::PayloadChunk::parts(v);
    message::lemma_part(parts, 0);
    message::lemma_part(parts, 1);
    message::lemma_part(parts, 2);
    message::lemma_part(parts, 3);
}

/// The fields of `payload_transfer_frame::payload_header::PayloadHeader`.
pub proof fn lemma_payload_header_fields(v: ptf::payload_header::PayloadHeaderView)
    ensures
        ({
            let fields = message::all_fields(ptf::payload_header::PayloadHeader::parts(v));
            &&& message::values_of(fields, 1) == message::int64_values(v.id)
            &&& message::values_of(fields, 2) == message::int32_values(v.type_)
            &&& message::values_of(fields, 3) == message::int64_values(v.total_size)
            &&& message::values_of(fields, 4) == message::bool_values(v.is_sensitive)
            &&& message::values_of(fields, 5) == message::string_values(v.file_name)
            &&& message::values_of(fields, 6) == message::string_values(v.parent_folder)
            &&& message::values_of(fields, 7) == message::int64_values(v.last_modified_timestamp_millis)
        }),
{
    let parts = ptf::payload_header::PayloadHeader::parts(v);
    message::lemma_part(parts, 0);
    message::lemma_part(parts, 1);
    message::lemma_part(parts, 2);
    message::lemma_part(parts, 3);
    message::lemma_part(parts, 4);
    message::lemma_part(parts, 5);
    message::lemma_part(parts, 6);
}

/// The fields of `service_address::ServiceAddress`.
pub proof fn lemma_service_address_fields(v: pb::service_address::ServiceAddressView)
    ensures
        ({
            let fields = message::all_fields(pb::service_address::ServiceAddress::parts(v));
            &&& message::values_of(fields, 1) == message::bytes_values(v.ip_address)
            &&& message::values_of(fields, 2) == message::int32_values(v.port)
        }),
{
    let parts = pb::service_address::ServiceAddress::parts(v);
    message::lemma_part(parts, 0);
    message::lemma_part(parts, 1);
}

/// The fields of `usable_channels::AvailableChannels`.
pub proof fn lemma_available_channels_fields(v: pb::usable_channels::AvailableChannelsView)
    ensures
        ({
            let fields = message::all_fields(pb::usable_channels::AvailableChannels::parts(v));
            &&& message::values_of(fields, 1) == message::packed_values(v.channels)
        }),
{
    let parts = pb::usable_channels::AvailableChannels::parts(v);
    message::lemma_part(parts, 0);
}

/// The fields of `usable_channels::WifiDirectCliUsableChannels`.
pub proof fn lemma_wifi_direct_cli_usable_channels_fields(v: pb::usable_channels::WifiDirectCliUsableChannelsView)
    ensures
        ({
            let fields = message::all_fields(pb::usable_channels::WifiDirectCliUsableChannels::parts(v));
            &&& message::values_of(fields, 1) == message::packed_values(v.channels)
        }),
{
    let parts = pb::usable_channels::WifiDirectCliUsableChannels::parts(v);
    message::lemma_part(parts, 0);
}

/// The fields of `usable_channels::WifiLanUsableChannels`.
pub proof fn lemma_wifi_lan_usable_channels_fields(v: pb::usable_channels::WifiLanUsableChannelsView)
    ensures
        ({
            let fields = message::all_fields(pb::usable_channels::WifiLanUsableChannels::parts(v));
            &&& message::values_of(fields, 1) == message::packed_values(v.channels)
        }),
{
    let parts = pb::usable_channels::WifiLanUsableChannels::parts(v);
    message::lemma_part(parts, 0);
}

/// The fields of `usable_channels::WifiAwareUsableChannels`.
pub proof fn lemma_wifi_aware_usable_channels_fields(v: pb::usable_channels::WifiAwareUsableChannelsView)
    ensures
        ({
            let fields = message::all_fields(pb::usable_channels::WifiAwareUsableChannels::parts(v));
            &&& message::values_of(fields, 1) == message::packed_values(v.channels)
        }),
{
    let parts = pb::usable_channels::WifiAwareUsableChannels::parts(v);
    message::lemma_part(parts, 0);
}

/// The fields of `usable_channels::WifiHotspotStaUsableChannels`.
pub proof fn lemma_wifi_hotspot_sta_usable_channels_fields(v: pb::usable_channels::WifiHotspotStaUsableChannelsView)
    ensures
        ({
            let fields = message::all_fields(pb::usable_channels::WifiHotspotStaUsableChannels::parts(v));
            &&& message::values_of(fields, 1) == message::packed_values(v.channels)
        }),
{
    let parts = pb::usable_channels::WifiHotspotStaUsableChannels::parts(v);
    message::lemma_part(parts, 0);
}

/// The fields of `v1_frame::V1Frame`.
pub proof fn lemma_v1_frame_fields(v: pb::v1_frame::V1FrameView)
    ensures
        ({
            let fields = message::all_fields(pb::v1_frame::V1Frame::parts(v));
            &&& message::values_of(fields, 1) == message::int32_values(v.type_)
            &&& message::values_of(fields, 2) == message::message_values::<crf::ConnectionRequestFrame>(v.connection_request)
            &&& message::values_of(fields, 3) == message::message_values::<pb::connection_response_frame::ConnectionResponseFrame>(v.connection_response)
            &&& message::values_of(fields, 4) == message::message_values::<ptf::PayloadTransferFrame>(v.payload_transfer)
            &&& message::values_of(fields, 5) == message::message_values::<bwu::BandwidthUpgradeNegotiationFrame>(v.bandwidth_upgrade_negotiation)
            &&& message::values_of(fields, 6) == message::message_values::<pb::keep_alive_frame::KeepAliveFrame>(v.keep_alive)
            &&& message::values_of(fields, 7) == message::message_values::<pb::disconnection_frame::DisconnectionFrame>(v.disconnection)
            &&& message::values_of(fields, 8) == message::message_values::<pb::paired_key_encryption_frame::PairedKeyEncryptionFrame>(v.paired_key_encryption)
            &&& message::values_of(fields, 9) == message::message_values::<pb::authentication_frame::AuthenticationMessageFrame>(v.authentication_message)
            &&& message::values_of(fields, 10) == message::message_values::<pb::authentication_frame::AuthenticationResultFrame>(v.authentication_result)
            &&& message::values_of(fields, 11) == message::message_values::<pb::auto_resume_frame::AutoResumeFrame>(v.auto_resume)
            &&& message::values_of(fields, 12) == message::message_values::<pb::auto_reconnect_frame::AutoReconnectFrame>(v.auto_reconnect)
            &&& message::values_of(fields, 13) == message::message_values::<pb::bandwidth_upgrade_retry_frame::BandwidthUpgradeRetryFrame>(v.bandwidth_upgrade_retry)
        }),
{
    let parts = pb::v1_frame::V1Frame::parts(v);
    message::lemma_part(parts, 0);
    message::lemma_part(parts, 1);
    message::lemma_part(parts, 2);
    message::lemma_part(parts, 3);
    message::lemma_part(parts, 4);
    message::lemma_part(parts, 5);
    message::lemma_part(parts, 6);
    message::lemma_part(parts, 7);
    message::lemma_part(parts, 8);
    message::lemma_part(parts, 9);
    message::lemma_part(parts, 10);
    message::lemma_part(parts, 11);
    message::lemma_part(parts, 12);
}

} // verus!

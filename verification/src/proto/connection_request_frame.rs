//! The frame that asks for a connection.

use vstd::prelude::*;

use crate::message;
use crate::message::{FieldWriter, Message, Part};
use crate::proto::connections_device::{ConnectionsDevice, ConnectionsDeviceView, PresenceDevice, PresenceDeviceView};
use crate::proto::location_hint::{LocationHint, LocationHintView};
use crate::proto::medium_metadata::{MediumMetadata, MediumMetadataView};
use crate::wire;
use crate::wire::{Field, FieldView};

verus! {

/// A medium, as a connection request names it.
#[derive(Clone, Copy, Debug, PartialEq, Eq, Hash, Structural)]
pub enum Medium {
    UnknownMedium,
    Mdns,
    Bluetooth,
    WifiHotspot,
    Ble,
    WifiLan,
    WifiAware,
    Nfc,
    WifiDirect,
    WebRtc,
    BleL2cap,
    Usb,
    WebRtcNonCellular,
    Awdl,
}

impl Medium {
    /// The number that stands for the variant on the wire.
    pub open spec fn spec_value(self) -> i32 {
        match self {
            Medium::UnknownMedium => 0,
            Medium::Mdns => 1,
            Medium::Bluetooth => 2,
            Medium::WifiHotspot => 3,
            Medium::Ble => 4,
            Medium::WifiLan => 5,
            Medium::WifiAware => 6,
            Medium::Nfc => 7,
            Medium::WifiDirect => 8,
            Medium::WebRtc => 9,
            Medium::BleL2cap => 10,
            Medium::Usb => 11,
            Medium::WebRtcNonCellular => 12,
            Medium::Awdl => 13,
        }
    }

    /// The variant that a number stands for.
    pub open spec fn spec_from_i32(value: i32) -> Option<Medium> {
        match value {
            0 => Some(Medium::UnknownMedium),
            1 => Some(Medium::Mdns),
            2 => Some(Medium::Bluetooth),
            3 => Some(Medium::WifiHotspot),
            4 => Some(Medium::Ble),
            5 => Some(Medium::WifiLan),
            6 => Some(Medium::WifiAware),
            7 => Some(Medium::Nfc),
            8 => Some(Medium::WifiDirect),
            9 => Some(Medium::WebRtc),
            10 => Some(Medium::BleL2cap),
            11 => Some(Medium::Usb),
            12 => Some(Medium::WebRtcNonCellular),
            13 => Some(Medium::Awdl),
            _ => None,
        }
    }

    #[verifier::when_used_as_spec(spec_value)]
    pub fn value(self) -> (r: i32)
        ensures
            r == self.spec_value(),
    {
        match self {
            Medium::UnknownMedium => 0,
            Medium::Mdns => 1,
            Medium::Bluetooth => 2,
            Medium::WifiHotspot => 3,
            Medium::Ble => 4,
            Medium::WifiLan => 5,
            Medium::WifiAware => 6,
            Medium::Nfc => 7,
            Medium::WifiDirect => 8,
            Medium::WebRtc => 9,
            Medium::BleL2cap => 10,
            Medium::Usb => 11,
            Medium::WebRtcNonCellular => 12,
            Medium::Awdl => 13,
        }
    }

    #[verifier::when_used_as_spec(spec_from_i32)]
    pub fn from_i32(value: i32) -> (r: Option<Medium>)
        ensures
            r == Medium::spec_from_i32(value),
    {
        match value {
            0 => Some(Medium::UnknownMedium),
            1 => Some(Medium::Mdns),
            2 => Some(Medium::Bluetooth),
            3 => Some(Medium::WifiHotspot),
            4 => Some(Medium::Ble),
            5 => Some(Medium::WifiLan),
            6 => Some(Medium::WifiAware),
            7 => Some(Medium::Nfc),
            8 => Some(Medium::WifiDirect),
            9 => Some(Medium::WebRtc),
            10 => Some(Medium::BleL2cap),
            11 => Some(Medium::Usb),
            12 => Some(Medium::WebRtcNonCellular),
            13 => Some(Medium::Awdl),
            _ => None,
        }
    }

    /// A number stands for a variant if and only if it is the number of that variant.
    pub proof fn lemma_number(self, value: i32)
        ensures
            Medium::from_i32(value) == Some(self) <==> value == self.value(),
    {
    }
}

/// How the connection is used.
#[derive(Clone, Copy, Debug, PartialEq, Eq, Hash, Structural)]
pub enum ConnectionMode {
    Legacy,
    Instant,
}

impl ConnectionMode {
    /// The number that stands for the variant on the wire.
    pub open spec fn spec_value(self) -> i32 {
        match self {
            ConnectionMode::Legacy => 0,
            ConnectionMode::Instant => 1,
        }
    }

    /// The variant that a number stands for.
    pub open spec fn spec_from_i32(value: i32) -> Option<ConnectionMode> {
        match value {
            0 => Some(ConnectionMode::Legacy),
            1 => Some(ConnectionMode::Instant),
            _ => None,
        }
    }

    #[verifier::when_used_as_spec(spec_value)]
    pub fn value(self) -> (r: i32)
        ensures
            r == self.spec_value(),
    {
        match self {
            ConnectionMode::Legacy => 0,
            ConnectionMode::Instant => 1,
        }
    }

    #[verifier::when_used_as_spec(spec_from_i32)]
    pub fn from_i32(value: i32) -> (r: Option<ConnectionMode>)
        ensures
            r == ConnectionMode::spec_from_i32(value),
    {
        match value {
            0 => Some(ConnectionMode::Legacy),
            1 => Some(ConnectionMode::Instant),
            _ => None,
        }
    }

    /// A number stands for a variant if and only if it is the number of that variant.
    pub proof fn lemma_number(self, value: i32)
        ensures
            ConnectionMode::from_i32(value) == Some(self) <==> value == self.value(),
    {
    }
}

/// The device that a connection request names.
#[derive(Debug, PartialEq, Eq)]
pub enum Device {
    ConnectionsDevice(ConnectionsDevice),
    PresenceDevice(PresenceDevice),
}

/// What [`Device`] stands for.
pub enum DeviceView {
    ConnectionsDevice(ConnectionsDeviceView),
    PresenceDevice(PresenceDeviceView),
}

impl View for Device {
    type V = DeviceView;

    open spec fn view(&self) -> DeviceView {
        match self {
            Device::ConnectionsDevice(d) => DeviceView::ConnectionsDevice(d@),
            Device::PresenceDevice(d) => DeviceView::PresenceDevice(d@),
        }
    }
}

impl Clone for Device {
    fn clone(&self) -> (r: Device)
        ensures
            r@ == self@,
    {
        match self {
            Device::ConnectionsDevice(d) => Device::ConnectionsDevice(d.copy()),
            Device::PresenceDevice(d) => Device::PresenceDevice(d.copy()),
        }
    }
}

pub open spec fn connections_device(v: Option<DeviceView>) -> Option<ConnectionsDeviceView> {
    match v {
        Some(DeviceView::ConnectionsDevice(d)) => Some(d),
        _ => None,
    }
}

pub open spec fn presence_device(v: Option<DeviceView>) -> Option<PresenceDeviceView> {
    match v {
        Some(DeviceView::PresenceDevice(d)) => Some(d),
        _ => None,
    }
}

/// The fields after the last one with the given number.
pub open spec fn after_last(fields: Seq<FieldView>, number: u32) -> Seq<FieldView>
    decreases fields.len(),
{
    if fields.len() == 0 || fields.last().number == number {
        Seq::empty()
    } else {
        after_last(fields.drop_last(), number).push(fields.last())
    }
}

/// The device that a run of fields names. The two forms of a device exclude each
/// other, and the last one wins: it merges the occurrences that follow the last
/// occurrence of the other form. Those before must be well-formed all the same.
pub open spec fn device_of(fields: Seq<FieldView>, limit: nat) -> Option<Option<DeviceView>> {
    let connections = message::values_of(after_last(fields, 13), 12);
    let presence = message::values_of(after_last(fields, 12), 13);
    if message::messages_of::<ConnectionsDevice>(message::values_of(fields, 12), limit) is None
        || message::messages_of::<PresenceDevice>(message::values_of(fields, 13), limit) is None {
        None
    } else if connections.len() > 0 {
        match message::message_of::<ConnectionsDevice>(connections, limit) {
            Some(Some(d)) => Some(Some(DeviceView::ConnectionsDevice(d))),
            _ => None,
        }
    } else if presence.len() > 0 {
        match message::message_of::<PresenceDevice>(presence, limit) {
            Some(Some(d)) => Some(Some(DeviceView::PresenceDevice(d))),
            _ => None,
        }
    } else {
        Some(None)
    }
}

proof fn lemma_after_last_absent(fields: Seq<FieldView>, number: u32)
    requires
        message::values_of(fields, number).len() == 0,
    ensures
        after_last(fields, number) == fields,
    decreases fields.len(),
{
    if fields.len() > 0 {
        lemma_after_last_absent(fields.drop_last(), number);
        assert(fields.drop_last().push(fields.last()) =~= fields);
    } else {
        assert(fields =~= Seq::empty());
    }
}

/// A device that occurs in `fields` as it is written is read back.
proof fn lemma_device_round_trip(v: Option<DeviceView>, fields: Seq<FieldView>, limit: nat)
    requires
        message::values_of(fields, 12) == message::message_values::<ConnectionsDevice>(
            connections_device(v),
        ),
        message::values_of(fields, 13) == message::message_values::<PresenceDevice>(
            presence_device(v),
        ),
        wire::join(fields).len() <= u64::MAX,
        limit > 0,
    ensures
        device_of(fields, limit) == Some(v),
        message::proper_values(
            message::message_values::<ConnectionsDevice>(connections_device(v)),
        ),
        message::proper_values(message::message_values::<PresenceDevice>(presence_device(v))),
{
    let connections = match connections_device(v) {
        Some(d) => seq![d],
        None => Seq::empty(),
    };
    let presence = match presence_device(v) {
        Some(d) => seq![d],
        None => Seq::empty(),
    };
    assert(message::values_of(fields, 12) =~= message::messages_values::<ConnectionsDevice>(
        connections,
    ));
    assert(message::values_of(fields, 13) =~= message::messages_values::<PresenceDevice>(
        presence,
    ));
    message::lemma_messages_round_trip::<ConnectionsDevice>(connections, fields, 12, limit);
    message::lemma_messages_round_trip::<PresenceDevice>(presence, fields, 13, limit);
    message::lemma_message_round_trip::<ConnectionsDevice>(
        connections_device(v),
        fields,
        12,
        limit,
    );
    message::lemma_message_round_trip::<PresenceDevice>(presence_device(v), fields, 13, limit);
    if connections_device(v) is None {
        lemma_after_last_absent(fields, 12);
    }
    if presence_device(v) is None {
        lemma_after_last_absent(fields, 13);
    }
    lemma_after_last_shorter(fields, 12, 13);
    lemma_after_last_shorter(fields, 13, 12);
}

proof fn lemma_after_last_shorter(fields: Seq<FieldView>, number: u32, other: u32)
    ensures
        message::values_of(after_last(fields, number), other).len() <= message::values_of(
            fields,
            other,
        ).len(),
    decreases fields.len(),
{
    if fields.len() > 0 && fields.last().number != number {
        lemma_after_last_shorter(fields.drop_last(), number, other);
        let after = after_last(fields, number);
        assert(after.drop_last() =~= after_last(fields.drop_last(), number));
    }
}

/// How many fields there are up to the last one with the given number.
fn up_to_last(fields: &[Field], number: u32) -> (r: usize)
    ensures
        r <= fields@.len(),
        after_last(wire::seq_view(fields@), number) == wire::seq_view(fields@).skip(r as int),
{
    let ghost all = wire::seq_view(fields@);
    let mut n: usize = 0;
    let mut i: usize = 0;
    assert(all.take(0).skip(0) =~= Seq::empty());
    while i < fields.len()
        invariant
            n <= i <= fields@.len(),
            all == wire::seq_view(fields@),
            after_last(all.take(i as int), number) == all.take(i as int).skip(n as int),
        decreases fields@.len() - i,
    {
        let ghost front = all.take(i + 1);
        assert(front.drop_last() =~= all.take(i as int));
        if fields[i].number == number {
            n = i + 1;
            assert(front.skip(n as int) =~= Seq::empty());
        } else {
            assert(front.skip(n as int) =~= all.take(i as int).skip(n as int).push(
                all[i as int],
            ));
        }
        i = i + 1;
    }
    assert(all.take(i as int) =~= all);
    n
}

fn read_device(fields: &[Field], limit: u32) -> (r: Option<Option<Device>>)
    ensures
        match r {
            Some(v) => device_of(wire::seq_view(fields@), limit as nat) == Some(wire::opt_view(v)),
            None => device_of(wire::seq_view(fields@), limit as nat) is None,
        },
{
    let _ = message::read_messages::<ConnectionsDevice>(fields, 12, limit)?;
    let _ = message::read_messages::<PresenceDevice>(fields, 13, limit)?;
    let n: usize = up_to_last(fields, 13);
    let rest = vstd::slice::slice_subrange(fields, n, fields.len());
    assert(wire::seq_view(rest@) =~= wire::seq_view(fields@).skip(n as int));
    if let Some(d) = message::read_message::<ConnectionsDevice>(rest, 12, limit)? {
        return Some(Some(Device::ConnectionsDevice(d)));
    }
    let n: usize = up_to_last(fields, 12);
    let rest = vstd::slice::slice_subrange(fields, n, fields.len());
    assert(wire::seq_view(rest@) =~= wire::seq_view(fields@).skip(n as int));
    if let Some(d) = message::read_message::<PresenceDevice>(rest, 13, limit)? {
        return Some(Some(Device::PresenceDevice(d)));
    }
    Some(None)
}

fn write_device(v: &Option<Device>, out: &mut FieldWriter)
    ensures
        final(out)@ == old(out)@.push(
            (
                12,
                message::message_values::<ConnectionsDevice>(
                    connections_device(wire::opt_view(*v)),
                ),
            ),
        ).push(
            (13, message::message_values::<PresenceDevice>(presence_device(wire::opt_view(*v)))),
        ),
{
    match v {
        Some(Device::ConnectionsDevice(d)) => {
            out.put_one(12, d);
            out.put_none(13);
        },
        Some(Device::PresenceDevice(d)) => {
            out.put_none(12);
            out.put_one(13, d);
        },
        None => {
            out.put_none(12);
            out.put_none(13);
        },
    }
}

fn copy_device(v: &Option<Device>) -> (r: Option<Device>)
    ensures
        wire::opt_view(r) == wire::opt_view(*v),
{
    match v {
        Some(d) => Some(d.clone()),
        None => None,
    }
}

/// Asks for a connection.
#[derive(Debug, PartialEq, Eq)]
pub struct ConnectionRequestFrame {
    pub endpoint_id: Option<String>,
    pub endpoint_name: Option<String>,
    pub handshake_data: Option<Vec<u8>>,
    pub nonce: Option<i32>,
    pub mediums: Vec<i32>,
    pub endpoint_info: Option<Vec<u8>>,
    pub medium_metadata: Option<MediumMetadata>,
    pub keep_alive_interval_millis: Option<i32>,
    pub keep_alive_timeout_millis: Option<i32>,
    pub device_type: Option<i32>,
    pub device_info: Option<Vec<u8>>,
    pub device: Option<Device>,
    pub connection_mode: Option<i32>,
    pub location_hint: Option<LocationHint>,
}

/// What [`ConnectionRequestFrame`] stands for.
pub struct ConnectionRequestFrameView {
    pub endpoint_id: Option<Seq<char>>,
    pub endpoint_name: Option<Seq<char>>,
    pub handshake_data: Option<Seq<u8>>,
    pub nonce: Option<i32>,
    pub mediums: Seq<i32>,
    pub endpoint_info: Option<Seq<u8>>,
    pub medium_metadata: Option<MediumMetadataView>,
    pub keep_alive_interval_millis: Option<i32>,
    pub keep_alive_timeout_millis: Option<i32>,
    pub device_type: Option<i32>,
    pub device_info: Option<Seq<u8>>,
    pub device: Option<DeviceView>,
    pub connection_mode: Option<i32>,
    pub location_hint: Option<LocationHintView>,
}

impl ConnectionRequestFrameView {
    /// The message with nothing in it.
    pub open spec fn unset() -> ConnectionRequestFrameView {
        ConnectionRequestFrameView {
            endpoint_id: None,
            endpoint_name: None,
            handshake_data: None,
            nonce: None,
            mediums: Seq::empty(),
            endpoint_info: None,
            medium_metadata: None,
            keep_alive_interval_millis: None,
            keep_alive_timeout_millis: None,
            device_type: None,
            device_info: None,
            device: None,
            connection_mode: None,
            location_hint: None,
        }
    }
}

impl View for ConnectionRequestFrame {
    type V = ConnectionRequestFrameView;

    open spec fn view(&self) -> ConnectionRequestFrameView {
        ConnectionRequestFrameView {
            endpoint_id: wire::opt_view(self.endpoint_id),
            endpoint_name: wire::opt_view(self.endpoint_name),
            handshake_data: wire::opt_view(self.handshake_data),
            nonce: self.nonce,
            mediums: self.mediums@,
            endpoint_info: wire::opt_view(self.endpoint_info),
            medium_metadata: wire::opt_view(self.medium_metadata),
            keep_alive_interval_millis: self.keep_alive_interval_millis,
            keep_alive_timeout_millis: self.keep_alive_timeout_millis,
            device_type: self.device_type,
            device_info: wire::opt_view(self.device_info),
            device: wire::opt_view(self.device),
            connection_mode: self.connection_mode,
            location_hint: wire::opt_view(self.location_hint),
        }
    }
}

impl Default for ConnectionRequestFrame {
    fn default() -> (r: ConnectionRequestFrame)
        ensures
            r@ == ConnectionRequestFrameView::unset(),
    {
        let r = ConnectionRequestFrame {
            endpoint_id: None,
            endpoint_name: None,
            handshake_data: None,
            nonce: None,
            mediums: Vec::new(),
            endpoint_info: None,
            medium_metadata: None,
            keep_alive_interval_millis: None,
            keep_alive_timeout_millis: None,
            device_type: None,
            device_info: None,
            device: None,
            connection_mode: None,
            location_hint: None,
        };
        r
    }
}

impl Clone for ConnectionRequestFrame {
    fn clone(&self) -> (r: ConnectionRequestFrame)
        ensures
            r@ == self@,
    {
        self.copy()
    }
}

impl Message for ConnectionRequestFrame {
    open spec fn depth() -> nat {
        2
    }

    open spec fn parts(v: ConnectionRequestFrameView) -> Seq<Part> {
        seq![
            (1, message::string_values(v.endpoint_id)),
            (2, message::string_values(v.endpoint_name)),
            (3, message::bytes_values(v.handshake_data)),
            (4, message::int32_values(v.nonce)),
            (5, message::ints_values(v.mediums)),
            (6, message::bytes_values(v.endpoint_info)),
            (7, message::message_values::<MediumMetadata>(v.medium_metadata)),
            (8, message::int32_values(v.keep_alive_interval_millis)),
            (9, message::int32_values(v.keep_alive_timeout_millis)),
            (10, message::int32_values(v.device_type)),
            (11, message::bytes_values(v.device_info)),
            (12, message::message_values::<ConnectionsDevice>(connections_device(v.device))),
            (13, message::message_values::<PresenceDevice>(presence_device(v.device))),
            (14, message::int32_values(v.connection_mode)),
            (15, message::message_values::<LocationHint>(v.location_hint)),
        ]
    }

    open spec fn from_fields(fields: Seq<FieldView>, limit: nat) -> Option<ConnectionRequestFrameView> {
        let endpoint_id = message::string_of(message::values_of(fields, 1));
        let endpoint_name = message::string_of(message::values_of(fields, 2));
        let handshake_data = message::bytes_of(message::values_of(fields, 3));
        let nonce = message::int32_of(message::values_of(fields, 4));
        let mediums = message::ints_of(message::values_of(fields, 5));
        let endpoint_info = message::bytes_of(message::values_of(fields, 6));
        let medium_metadata = message::message_of::<MediumMetadata>(message::values_of(fields, 7), limit);
        let keep_alive_interval_millis = message::int32_of(message::values_of(fields, 8));
        let keep_alive_timeout_millis = message::int32_of(message::values_of(fields, 9));
        let device_type = message::int32_of(message::values_of(fields, 10));
        let device_info = message::bytes_of(message::values_of(fields, 11));
        let device = device_of(fields, limit);
        let connection_mode = message::int32_of(message::values_of(fields, 14));
        let location_hint = message::message_of::<LocationHint>(message::values_of(fields, 15), limit);
        if endpoint_id is None
            || endpoint_name is None
            || handshake_data is None
            || nonce is None
            || mediums is None
            || endpoint_info is None
            || medium_metadata is None
            || keep_alive_interval_millis is None
            || keep_alive_timeout_millis is None
            || device_type is None
            || device_info is None
            || device is None
            || connection_mode is None
            || location_hint is None {
            None
        } else {
            Some(
                ConnectionRequestFrameView {
                    endpoint_id: endpoint_id->0,
                    endpoint_name: endpoint_name->0,
                    handshake_data: handshake_data->0,
                    nonce: nonce->0,
                    mediums: mediums->0,
                    endpoint_info: endpoint_info->0,
                    medium_metadata: medium_metadata->0,
                    keep_alive_interval_millis: keep_alive_interval_millis->0,
                    keep_alive_timeout_millis: keep_alive_timeout_millis->0,
                    device_type: device_type->0,
                    device_info: device_info->0,
                    device: device->0,
                    connection_mode: connection_mode->0,
                    location_hint: location_hint->0,
                },
            )
        }
    }

    proof fn lemma_round_trip(v: ConnectionRequestFrameView, limit: nat) {
        broadcast use message::group_round_trip;

        let parts = Self::parts(v);
        let fields = message::all_fields(parts);
        message::lemma_part(parts, 0);
        message::lemma_part(parts, 1);
        message::lemma_part(parts, 2);
        message::lemma_part(parts, 3);
        message::lemma_part(parts, 4);
        message::lemma_part(parts, 5);
        message::lemma_part(parts, 6);
        message::lemma_part(parts, 7);
        message::lemma_part(parts, 8);
        message::lemma_part(parts, 9);
        message::lemma_part(parts, 10);
        message::lemma_part(parts, 11);
        message::lemma_part(parts, 12);
        message::lemma_part(parts, 13);
        message::lemma_part(parts, 14);
        message::lemma_message_round_trip::<MediumMetadata>(v.medium_metadata, fields, 7, limit);
        lemma_device_round_trip(v.device, fields, limit);
        message::lemma_message_round_trip::<LocationHint>(v.location_hint, fields, 15, limit);
    }

    fn encode_to_vec(&self) -> Vec<u8> {
        let mut out = FieldWriter::new();
        out.put_string(1, &self.endpoint_id);
        out.put_string(2, &self.endpoint_name);
        out.put_bytes(3, &self.handshake_data);
        out.put_int32(4, self.nonce);
        out.put_ints(5, &self.mediums);
        out.put_bytes(6, &self.endpoint_info);
        out.put_message(7, &self.medium_metadata);
        out.put_int32(8, self.keep_alive_interval_millis);
        out.put_int32(9, self.keep_alive_timeout_millis);
        out.put_int32(10, self.device_type);
        out.put_bytes(11, &self.device_info);
        write_device(&self.device, &mut out);
        out.put_int32(14, self.connection_mode);
        out.put_message(15, &self.location_hint);
        assert(out@ =~= Self::parts(self@));
        out.finish()
    }

    fn copy(&self) -> ConnectionRequestFrame {
        ConnectionRequestFrame {
            endpoint_id: message::copy_string(&self.endpoint_id),
            endpoint_name: message::copy_string(&self.endpoint_name),
            handshake_data: message::copy_bytes(&self.handshake_data),
            nonce: self.nonce,
            mediums: message::copy_ints(&self.mediums),
            endpoint_info: message::copy_bytes(&self.endpoint_info),
            medium_metadata: message::copy_message(&self.medium_metadata),
            keep_alive_interval_millis: self.keep_alive_interval_millis,
            keep_alive_timeout_millis: self.keep_alive_timeout_millis,
            device_type: self.device_type,
            device_info: message::copy_bytes(&self.device_info),
            device: copy_device(&self.device),
            connection_mode: self.connection_mode,
            location_hint: message::copy_message(&self.location_hint),
        }
    }

    fn read(fields: &[Field], limit: u32) -> Option<ConnectionRequestFrame> {
        let endpoint_id = message::read_string(fields, 1)?;
        let endpoint_name = message::read_string(fields, 2)?;
        let handshake_data = message::read_bytes(fields, 3)?;
        let nonce = message::read_int32(fields, 4)?;
        let mediums = message::read_ints(fields, 5)?;
        let endpoint_info = message::read_bytes(fields, 6)?;
        let medium_metadata = message::read_message::<MediumMetadata>(fields, 7, limit)?;
        let keep_alive_interval_millis = message::read_int32(fields, 8)?;
        let keep_alive_timeout_millis = message::read_int32(fields, 9)?;
        let device_type = message::read_int32(fields, 10)?;
        let device_info = message::read_bytes(fields, 11)?;
        let device = read_device(fields, limit)?;
        let connection_mode = message::read_int32(fields, 14)?;
        let location_hint = message::read_message::<LocationHint>(fields, 15, limit)?;
        Some(
            ConnectionRequestFrame {
                endpoint_id,
                endpoint_name,
                handshake_data,
                nonce,
                mediums,
                endpoint_info,
                medium_metadata,
                keep_alive_interval_millis,
                keep_alive_timeout_millis,
                device_type,
                device_info,
                device,
                connection_mode,
                location_hint,
            },
        )
    }
}

} // verus!

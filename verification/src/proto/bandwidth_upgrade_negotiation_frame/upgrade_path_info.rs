//! The medium that an upgrade goes to, and how to reach it.

use vstd::prelude::*;

use crate::message;
use crate::message::{FieldWriter, Message, Part};
use crate::proto::location_hint::{LocationHint, LocationHintView};
use crate::proto::medium_metadata::{MediumMetadata, MediumMetadataView};
use crate::proto::service_address::{ServiceAddress, ServiceAddressView};
use crate::wire;
use crate::wire::{Field, FieldView};

verus! {

/// A medium, as an upgrade path names it. It has no counterpart of BLE L2CAP.
#[derive(Clone, Copy, Debug, PartialEq, Eq, Hash, Structural)]
pub enum Medium {
    UnknownMedium,
    Mdns,
    Bluetooth,
    WifiHotspot,
    Ble,
    WifiLan,
    WifiAware,
    Nfc,
    WifiDirect,
    WebRtc,
    Usb,
    WebRtcNonCellular,
    Awdl,
}

impl Medium {
    /// The number that stands for the variant on the wire.
    pub open spec fn spec_value(self) -> i32 {
        match self {
            Medium::UnknownMedium => 0,
            Medium::Mdns => 1,
            Medium::Bluetooth => 2,
            Medium::WifiHotspot => 3,
            Medium::Ble => 4,
            Medium::WifiLan => 5,
            Medium::WifiAware => 6,
            Medium::Nfc => 7,
            Medium::WifiDirect => 8,
            Medium::WebRtc => 9,
            Medium::Usb => 11,
            Medium::WebRtcNonCellular => 12,
            Medium::Awdl => 13,
        }
    }

    /// The variant that a number stands for.
    pub open spec fn spec_from_i32(value: i32) -> Option<Medium> {
        match value {
            0 => Some(Medium::UnknownMedium),
            1 => Some(Medium::Mdns),
            2 => Some(Medium::Bluetooth),
            3 => Some(Medium::WifiHotspot),
            4 => Some(Medium::Ble),
            5 => Some(Medium::WifiLan),
            6 => Some(Medium::WifiAware),
            7 => Some(Medium::Nfc),
            8 => Some(Medium::WifiDirect),
            9 => Some(Medium::WebRtc),
            11 => Some(Medium::Usb),
            12 => Some(Medium::WebRtcNonCellular),
            13 => Some(Medium::Awdl),
            _ => None,
        }
    }

    #[verifier::when_used_as_spec(spec_value)]
    pub fn value(self) -> (r: i32)
        ensures
            r == self.spec_value(),
    {
        match self {
            Medium::UnknownMedium => 0,
            Medium::Mdns => 1,
            Medium::Bluetooth => 2,
            Medium::WifiHotspot => 3,
            Medium::Ble => 4,
            Medium::WifiLan => 5,
            Medium::WifiAware => 6,
            Medium::Nfc => 7,
            Medium::WifiDirect => 8,
            Medium::WebRtc => 9,
            Medium::Usb => 11,
            Medium::WebRtcNonCellular => 12,
            Medium::Awdl => 13,
        }
    }

    #[verifier::when_used_as_spec(spec_from_i32)]
    pub fn from_i32(value: i32) -> (r: Option<Medium>)
        ensures
            r == Medium::spec_from_i32(value),
    {
        match value {
            0 => Some(Medium::UnknownMedium),
            1 => Some(Medium::Mdns),
            2 => Some(Medium::Bluetooth),
            3 => Some(Medium::WifiHotspot),
            4 => Some(Medium::Ble),
            5 => Some(Medium::WifiLan),
            6 => Some(Medium::WifiAware),
            7 => Some(Medium::Nfc),
            8 => Some(Medium::WifiDirect),
            9 => Some(Medium::WebRtc),
            11 => Some(Medium::Usb),
            12 => Some(Medium::WebRtcNonCellular),
            13 => Some(Medium::Awdl),
            _ => None,
        }
    }

    /// A number stands for a variant if and only if it is the number of that variant.
    pub proof fn lemma_number(self, value: i32)
        ensures
            Medium::from_i32(value) == Some(self) <==> value == self.value(),
    {
    }
}

/// How to reach a Wi-Fi hotspot.
#[derive(Debug, PartialEq, Eq)]
pub struct WifiHotspotCredentials {
    pub ssid: Option<String>,
    pub password: Option<String>,
    pub port: Option<i32>,
    pub gateway: Option<String>,
    pub frequency: Option<i32>,
    pub address_candidates: Vec<ServiceAddress>,
}

/// What [`WifiHotspotCredentials`] stands for.
pub struct WifiHotspotCredentialsView {
    pub ssid: Option<Seq<char>>,
    pub password: Option<Seq<char>>,
    pub port: Option<i32>,
    pub gateway: Option<Seq<char>>,
    pub frequency: Option<i32>,
    pub address_candidates: Seq<ServiceAddressView>,
}

impl WifiHotspotCredentialsView {
    /// The message with nothing in it.
    pub open spec fn unset() -> WifiHotspotCredentialsView {
        WifiHotspotCredentialsView {
            ssid: None,
            password: None,
            port: None,
            gateway: None,
            frequency: None,
            address_candidates: Seq::empty(),
        }
    }
}

impl View for WifiHotspotCredentials {
    type V = WifiHotspotCredentialsView;

    open spec fn view(&self) -> WifiHotspotCredentialsView {
        WifiHotspotCredentialsView {
            ssid: wire::opt_view(self.ssid),
            password: wire::opt_view(self.password),
            port: self.port,
            gateway: wire::opt_view(self.gateway),
            frequency: self.frequency,
            address_candidates: wire::seq_view(self.address_candidates@),
        }
    }
}

impl Default for WifiHotspotCredentials {
    fn default() -> (r: WifiHotspotCredentials)
        ensures
            r@ == WifiHotspotCredentialsView::unset(),
    {
        let r = WifiHotspotCredentials {
            ssid: None,
            password: None,
            port: None,
            gateway: None,
            frequency: None,
            address_candidates: Vec::new(),
        };
        assert(wire::seq_view(r.address_candidates@) =~= Seq::empty());
        r
    }
}

impl Clone for WifiHotspotCredentials {
    fn clone(&self) -> (r: WifiHotspotCredentials)
        ensures
            r@ == self@,
    {
        self.copy()
    }
}

impl Message for WifiHotspotCredentials {
    open spec fn depth() -> nat {
        1
    }

    open spec fn parts(v: WifiHotspotCredentialsView) -> Seq<Part> {
        seq![
            (1, message::string_values(v.ssid)),
            (2, message::string_values(v.password)),
            (3, message::int32_values(v.port)),
            (4, message::string_values(v.gateway)),
            (5, message::int32_values(v.frequency)),
            (6, message::messages_values::<ServiceAddress>(v.address_candidates)),
        ]
    }

    open spec fn from_fields(fields: Seq<FieldView>, limit: nat) -> Option<WifiHotspotCredentialsView> {
        let ssid = message::string_of(message::values_of(fields, 1));
        let password = message::string_of(message::values_of(fields, 2));
        let port = message::int32_of(message::values_of(fields, 3));
        let gateway = message::string_of(message::values_of(fields, 4));
        let frequency = message::int32_of(message::values_of(fields, 5));
        let address_candidates = message::messages_of::<ServiceAddress>(message::values_of(fields, 6), limit);
        if ssid is None
            || password is None
            || port is None
            || gateway is None
            || frequency is None
            || address_candidates is None {
            None
        } else {
            Some(
                WifiHotspotCredentialsView {
                    ssid: ssid->0,
                    password: password->0,
                    port: port->0,
                    gateway: gateway->0,
                    frequency: frequency->0,
                    address_candidates: address_candidates->0,
                },
            )
        }
    }

    proof fn lemma_round_trip(v: WifiHotspotCredentialsView, limit: nat) {
        broadcast use message::group_round_trip;

        let parts = Self::parts(v);
        let fields = message::all_fields(parts);
        message::lemma_part(parts, 0);
        message::lemma_part(parts, 1);
        message::lemma_part(parts, 2);
        message::lemma_part(parts, 3);
        message::lemma_part(parts, 4);
        message::lemma_part(parts, 5);
        message::lemma_messages_round_trip::<ServiceAddress>(v.address_candidates, fields, 6, limit);
    }

    fn encode_to_vec(&self) -> Vec<u8> {
        let mut out = FieldWriter::new();
        out.put_string(1, &self.ssid);
        out.put_string(2, &self.password);
        out.put_int32(3, self.port);
        out.put_string(4, &self.gateway);
        out.put_int32(5, self.frequency);
        out.put_messages(6, &self.address_candidates);
        assert(out@ =~= Self::parts(self@));
        out.finish()
    }

    fn copy(&self) -> WifiHotspotCredentials {
        WifiHotspotCredentials {
            ssid: message::copy_string(&self.ssid),
            password: message::copy_string(&self.password),
            port: self.port,
            gateway: message::copy_string(&self.gateway),
            frequency: self.frequency,
            address_candidates: message::copy_messages(&self.address_candidates),
        }
    }

    fn read(fields: &[Field], limit: u32) -> Option<WifiHotspotCredentials> {
        let ssid = message::read_string(fields, 1)?;
        let password = message::read_string(fields, 2)?;
        let port = message::read_int32(fields, 3)?;
        let gateway = message::read_string(fields, 4)?;
        let frequency = message::read_int32(fields, 5)?;
        let address_candidates = message::read_messages::<ServiceAddress>(fields, 6, limit)?;
        Some(
            WifiHotspotCredentials {
                ssid,
                password,
                port,
                gateway,
                frequency,
                address_candidates,
            },
        )
    }
}

/// Where a peer listens on the local network.
#[derive(Debug, PartialEq, Eq)]
pub struct WifiLanSocket {
    pub ip_address: Option<Vec<u8>>,
    pub wifi_port: Option<i32>,
    pub address_candidates: Vec<ServiceAddress>,
}

/// What [`WifiLanSocket`] stands for.
pub struct WifiLanSocketView {
    pub ip_address: Option<Seq<u8>>,
    pub wifi_port: Option<i32>,
    pub address_candidates: Seq<ServiceAddressView>,
}

impl WifiLanSocketView {
    /// The message with nothing in it.
    pub open spec fn unset() -> WifiLanSocketView {
        WifiLanSocketView {
            ip_address: None,
            wifi_port: None,
            address_candidates: Seq::empty(),
        }
    }
}

impl View for WifiLanSocket {
    type V = WifiLanSocketView;

    open spec fn view(&self) -> WifiLanSocketView {
        WifiLanSocketView {
            ip_address: wire::opt_view(self.ip_address),
            wifi_port: self.wifi_port,
            address_candidates: wire::seq_view(self.address_candidates@),
        }
    }
}

impl Default for WifiLanSocket {
    fn default() -> (r: WifiLanSocket)
        ensures
            r@ == WifiLanSocketView::unset(),
    {
        let r = WifiLanSocket {
            ip_address: None,
            wifi_port: None,
            address_candidates: Vec::new(),
        };
        assert(wire::seq_view(r.address_candidates@) =~= Seq::empty());
        r
    }
}

impl Clone for WifiLanSocket {
    fn clone(&self) -> (r: WifiLanSocket)
        ensures
            r@ == self@,
    {
        self.copy()
    }
}

impl Message for WifiLanSocket {
    open spec fn depth() -> nat {
        1
    }

    open spec fn parts(v: WifiLanSocketView) -> Seq<Part> {
        seq![
            (1, message::bytes_values(v.ip_address)),
            (2, message::int32_values(v.wifi_port)),
            (3, message::messages_values::<ServiceAddress>(v.address_candidates)),
        ]
    }

    open spec fn from_fields(fields: Seq<FieldView>, limit: nat) -> Option<WifiLanSocketView> {
        let ip_address = message::bytes_of(message::values_of(fields, 1));
        let wifi_port = message::int32_of(message::values_of(fields, 2));
        let address_candidates = message::messages_of::<ServiceAddress>(message::values_of(fields, 3), limit);
        if ip_address is None
            || wifi_port is None
            || address_candidates is None {
            None
        } else {
            Some(
                WifiLanSocketView {
                    ip_address: ip_address->0,
                    wifi_port: wifi_port->0,
                    address_candidates: address_candidates->0,
                },
            )
        }
    }

    proof fn lemma_round_trip(v: WifiLanSocketView, limit: nat) {
        broadcast use message::group_round_trip;

        let parts = Self::parts(v);
        let fields = message::all_fields(parts);
        message::lemma_part(parts, 0);
        message::lemma_part(parts, 1);
        message::lemma_part(parts, 2);
        message::lemma_messages_round_trip::<ServiceAddress>(v.address_candidates, fields, 3, limit);
    }

    fn encode_to_vec(&self) -> Vec<u8> {
        let mut out = FieldWriter::new();
        out.put_bytes(1, &self.ip_address);
        out.put_int32(2, self.wifi_port);
        out.put_messages(3, &self.address_candidates);
        assert(out@ =~= Self::parts(self@));
        out.finish()
    }

    fn copy(&self) -> WifiLanSocket {
        WifiLanSocket {
            ip_address: message::copy_bytes(&self.ip_address),
            wifi_port: self.wifi_port,
            address_candidates: message::copy_messages(&self.address_candidates),
        }
    }

    fn read(fields: &[Field], limit: u32) -> Option<WifiLanSocket> {
        let ip_address = message::read_bytes(fields, 1)?;
        let wifi_port = message::read_int32(fields, 2)?;
        let address_candidates = message::read_messages::<ServiceAddress>(fields, 3, limit)?;
        Some(
            WifiLanSocket {
                ip_address,
                wifi_port,
                address_candidates,
            },
        )
    }
}

/// How to reach a Bluetooth service.
#[derive(Debug, PartialEq, Eq)]
pub struct BluetoothCredentials {
    pub service_name: Option<String>,
    pub mac_address: Option<String>,
}

/// What [`BluetoothCredentials`] stands for.
pub struct BluetoothCredentialsView {
    pub service_name: Option<Seq<char>>,
    pub mac_address: Option<Seq<char>>,
}

impl BluetoothCredentialsView {
    /// The message with nothing in it.
    pub open spec fn unset() -> BluetoothCredentialsView {
        BluetoothCredentialsView {
            service_name: None,
            mac_address: None,
        }
    }
}

impl View for BluetoothCredentials {
    type V = BluetoothCredentialsView;

    open spec fn view(&self) -> BluetoothCredentialsView {
        BluetoothCredentialsView {
            service_name: wire::opt_view(self.service_name),
            mac_address: wire::opt_view(self.mac_address),
        }
    }
}

impl Default for BluetoothCredentials {
    fn default() -> (r: BluetoothCredentials)
        ensures
            r@ == BluetoothCredentialsView::unset(),
    {
        BluetoothCredentials {
            service_name: None,
            mac_address: None,
        }
    }
}

impl Clone for BluetoothCredentials {
    fn clone(&self) -> (r: BluetoothCredentials)
        ensures
            r@ == self@,
    {
        self.copy()
    }
}

impl Message for BluetoothCredentials {
    open spec fn depth() -> nat {
        0
    }

    open spec fn parts(v: BluetoothCredentialsView) -> Seq<Part> {
        seq![
            (1, message::string_values(v.service_name)),
            (2, message::string_values(v.mac_address)),
        ]
    }

    open spec fn from_fields(fields: Seq<FieldView>, limit: nat) -> Option<BluetoothCredentialsView> {
        let service_name = message::string_of(message::values_of(fields, 1));
        let mac_address = message::string_of(message::values_of(fields, 2));
        if service_name is None
            || mac_address is None {
            None
        } else {
            Some(
                BluetoothCredentialsView {
                    service_name: service_name->0,
                    mac_address: mac_address->0,
                },
            )
        }
    }

    proof fn lemma_round_trip(v: BluetoothCredentialsView, limit: nat) {
        broadcast use message::group_round_trip;

        let parts = Self::parts(v);
        let fields = message::all_fields(parts);
        message::lemma_part(parts, 0);
        message::lemma_part(parts, 1);
    }

    fn encode_to_vec(&self) -> Vec<u8> {
        let mut out = FieldWriter::new();
        out.put_string(1, &self.service_name);
        out.put_string(2, &self.mac_address);
        assert(out@ =~= Self::parts(self@));
        out.finish()
    }

    fn copy(&self) -> BluetoothCredentials {
        BluetoothCredentials {
            service_name: message::copy_string(&self.service_name),
            mac_address: message::copy_string(&self.mac_address),
        }
    }

    fn read(fields: &[Field], limit: u32) -> Option<BluetoothCredentials> {
        let service_name = message::read_string(fields, 1)?;
        let mac_address = message::read_string(fields, 2)?;
        Some(
            BluetoothCredentials {
                service_name,
                mac_address,
            },
        )
    }
}

/// How to reach a Wi-Fi Aware service.
#[derive(Debug, PartialEq, Eq)]
pub struct WifiAwareCredentials {
    pub service_id: Option<String>,
    pub service_info: Option<Vec<u8>>,
    pub password: Option<String>,
}

/// What [`WifiAwareCredentials`] stands for.
pub struct WifiAwareCredentialsView {
    pub service_id: Option<Seq<char>>,
    pub service_info: Option<Seq<u8>>,
    pub password: Option<Seq<char>>,
}

impl WifiAwareCredentialsView {
    /// The message with nothing in it.
    pub open spec fn unset() -> WifiAwareCredentialsView {
        WifiAwareCredentialsView {
            service_id: None,
            service_info: None,
            password: None,
        }
    }
}

impl View for WifiAwareCredentials {
    type V = WifiAwareCredentialsView;

    open spec fn view(&self) -> WifiAwareCredentialsView {
        WifiAwareCredentialsView {
            service_id: wire::opt_view(self.service_id),
            service_info: wire::opt_view(self.service_info),
            password: wire::opt_view(self.password),
        }
    }
}

impl Default for WifiAwareCredentials {
    fn default() -> (r: WifiAwareCredentials)
        ensures
            r@ == WifiAwareCredentialsView::unset(),
    {
        WifiAwareCredentials {
            service_id: None,
            service_info: None,
            password: None,
        }
    }
}

impl Clone for WifiAwareCredentials {
    fn clone(&self) -> (r: WifiAwareCredentials)
        ensures
            r@ == self@,
    {
        self.copy()
    }
}

impl Message for WifiAwareCredentials {
    open spec fn depth() -> nat {
        0
    }

    open spec fn parts(v: WifiAwareCredentialsView) -> Seq<Part> {
        seq![
            (1, message::string_values(v.service_id)),
            (2, message::bytes_values(v.service_info)),
            (3, message::string_values(v.password)),
        ]
    }

    open spec fn from_fields(fields: Seq<FieldView>, limit: nat) -> Option<WifiAwareCredentialsView> {
        let service_id = message::string_of(message::values_of(fields, 1));
        let service_info = message::bytes_of(message::values_of(fields, 2));
        let password = message::string_of(message::values_of(fields, 3));
        if service_id is None
            || service_info is None
            || password is None {
            None
        } else {
            Some(
                WifiAwareCredentialsView {
                    service_id: service_id->0,
                    service_info: service_info->0,
                    password: password->0,
                },
            )
        }
    }

    proof fn lemma_round_trip(v: WifiAwareCredentialsView, limit: nat) {
        broadcast use message::group_round_trip;

        let parts = Self::parts(v);
        let fields = message::all_fields(parts);
        message::lemma_part(parts, 0);
        message::lemma_part(parts, 1);
        message::lemma_part(parts, 2);
    }

    fn encode_to_vec(&self) -> Vec<u8> {
        let mut out = FieldWriter::new();
        out.put_string(1, &self.service_id);
        out.put_bytes(2, &self.service_info);
        out.put_string(3, &self.password);
        assert(out@ =~= Self::parts(self@));
        out.finish()
    }

    fn copy(&self) -> WifiAwareCredentials {
        WifiAwareCredentials {
            service_id: message::copy_string(&self.service_id),
            service_info: message::copy_bytes(&self.service_info),
            password: message::copy_string(&self.password),
        }
    }

    fn read(fields: &[Field], limit: u32) -> Option<WifiAwareCredentials> {
        let service_id = message::read_string(fields, 1)?;
        let service_info = message::read_bytes(fields, 2)?;
        let password = message::read_string(fields, 3)?;
        Some(
            WifiAwareCredentials {
                service_id,
                service_info,
                password,
            },
        )
    }
}

/// How to reach a Wi-Fi Direct group.
#[derive(Debug, PartialEq, Eq)]
pub struct WifiDirectCredentials {
    pub ssid: Option<String>,
    pub password: Option<String>,
    pub port: Option<i32>,
    pub frequency: Option<i32>,
    pub gateway: Option<String>,
    pub ip_v6_address: Option<Vec<u8>>,
    pub device_name: Option<String>,
    pub pin: Option<String>,
}

/// What [`WifiDirectCredentials`] stands for.
pub struct WifiDirectCredentialsView {
    pub ssid: Option<Seq<char>>,
    pub password: Option<Seq<char>>,
    pub port: Option<i32>,
    pub frequency: Option<i32>,
    pub gateway: Option<Seq<char>>,
    pub ip_v6_address: Option<Seq<u8>>,
    pub device_name: Option<Seq<char>>,
    pub pin: Option<Seq<char>>,
}

impl WifiDirectCredentialsView {
    /// The message with nothing in it.
    pub open spec fn unset() -> WifiDirectCredentialsView {
        WifiDirectCredentialsView {
            ssid: None,
            password: None,
            port: None,
            frequency: None,
            gateway: None,
            ip_v6_address: None,
            device_name: None,
            pin: None,
        }
    }
}

impl View for WifiDirectCredentials {
    type V = WifiDirectCredentialsView;

    open spec fn view(&self) -> WifiDirectCredentialsView {
        WifiDirectCredentialsView {
            ssid: wire::opt_view(self.ssid),
            password: wire::opt_view(self.password),
            port: self.port,
            frequency: self.frequency,
            gateway: wire::opt_view(self.gateway),
            ip_v6_address: wire::opt_view(self.ip_v6_address),
            device_name: wire::opt_view(self.device_name),
            pin: wire::opt_view(self.pin),
        }
    }
}

impl Default for WifiDirectCredentials {
    fn default() -> (r: WifiDirectCredentials)
        ensures
            r@ == WifiDirectCredentialsView::unset(),
    {
        WifiDirectCredentials {
            ssid: None,
            password: None,
            port: None,
            frequency: None,
            gateway: None,
            ip_v6_address: None,
            device_name: None,
            pin: None,
        }
    }
}

impl Clone for WifiDirectCredentials {
    fn clone(&self) -> (r: WifiDirectCredentials)
        ensures
            r@ == self@,
    {
        self.copy()
    }
}

impl Message for WifiDirectCredentials {
    open spec fn depth() -> nat {
        0
    }

    open spec fn parts(v: WifiDirectCredentialsView) -> Seq<Part> {
        seq![
            (1, message::string_values(v.ssid)),
            (2, message::string_values(v.password)),
            (3, message::int32_values(v.port)),
            (4, message::int32_values(v.frequency)),
            (5, message::string_values(v.gateway)),
            (6, message::bytes_values(v.ip_v6_address)),
            (7, message::string_values(v.device_name)),
            (8, message::string_values(v.pin)),
        ]
    }

    open spec fn from_fields(fields: Seq<FieldView>, limit: nat) -> Option<WifiDirectCredentialsView> {
        let ssid = message::string_of(message::values_of(fields, 1));
        let password = message::string_of(message::values_of(fields, 2));
        let port = message::int32_of(message::values_of(fields, 3));
        let frequency = message::int32_of(message::values_of(fields, 4));
        let gateway = message::string_of(message::values_of(fields, 5));
        let ip_v6_address = message::bytes_of(message::values_of(fields, 6));
        let device_name = message::string_of(message::values_of(fields, 7));
        let pin = message::string_of(message::values_of(fields, 8));
        if ssid is None
            || password is None
            || port is None
            || frequency is None
            || gateway is None
            || ip_v6_address is None
            || device_name is None
            || pin is None {
            None
        } else {
            Some(
                WifiDirectCredentialsView {
                    ssid: ssid->0,
                    password: password->0,
                    port: port->0,
                    frequency: frequency->0,
                    gateway: gateway->0,
                    ip_v6_address: ip_v6_address->0,
                    device_name: device_name->0,
                    pin: pin->0,
                },
            )
        }
    }

    proof fn lemma_round_trip(v: WifiDirectCredentialsView, limit: nat) {
        broadcast use message::group_round_trip;

        let parts = Self::parts(v);
        let fields = message::all_fields(parts);
        message::lemma_part(parts, 0);
        message::lemma_part(parts, 1);
        message::lemma_part(parts, 2);
        message::lemma_part(parts, 3);
        message::lemma_part(parts, 4);
        message::lemma_part(parts, 5);
        message::lemma_part(parts, 6);
        message::lemma_part(parts, 7);
    }

    fn encode_to_vec(&self) -> Vec<u8> {
        let mut out = FieldWriter::new();
        out.put_string(1, &self.ssid);
        out.put_string(2, &self.password);
        out.put_int32(3, self.port);
        out.put_int32(4, self.frequency);
        out.put_string(5, &self.gateway);
        out.put_bytes(6, &self.ip_v6_address);
        out.put_string(7, &self.device_name);
        out.put_string(8, &self.pin);
        assert(out@ =~= Self::parts(self@));
        out.finish()
    }

    fn copy(&self) -> WifiDirectCredentials {
        WifiDirectCredentials {
            ssid: message::copy_string(&self.ssid),
            password: message::copy_string(&self.password),
            port: self.port,
            frequency: self.frequency,
            gateway: message::copy_string(&self.gateway),
            ip_v6_address: message::copy_bytes(&self.ip_v6_address),
            device_name: message::copy_string(&self.device_name),
            pin: message::copy_string(&self.pin),
        }
    }

    fn read(fields: &[Field], limit: u32) -> Option<WifiDirectCredentials> {
        let ssid = message::read_string(fields, 1)?;
        let password = message::read_string(fields, 2)?;
        let port = message::read_int32(fields, 3)?;
        let frequency = message::read_int32(fields, 4)?;
        let gateway = message::read_string(fields, 5)?;
        let ip_v6_address = message::read_bytes(fields, 6)?;
        let device_name = message::read_string(fields, 7)?;
        let pin = message::read_string(fields, 8)?;
        Some(
            WifiDirectCredentials {
                ssid,
                password,
                port,
                frequency,
                gateway,
                ip_v6_address,
                device_name,
                pin,
            },
        )
    }
}

/// How to reach a WebRTC peer.
#[derive(Debug, PartialEq, Eq)]
pub struct WebRtcCredentials {
    pub peer_id: Option<String>,
    pub location_hint: Option<LocationHint>,
}

/// What [`WebRtcCredentials`] stands for.
pub struct WebRtcCredentialsView {
    pub peer_id: Option<Seq<char>>,
    pub location_hint: Option<LocationHintView>,
}

impl WebRtcCredentialsView {
    /// The message with nothing in it.
    pub open spec fn unset() -> WebRtcCredentialsView {
        WebRtcCredentialsView {
            peer_id: None,
            location_hint: None,
        }
    }
}

impl View for WebRtcCredentials {
    type V = WebRtcCredentialsView;

    open spec fn view(&self) -> WebRtcCredentialsView {
        WebRtcCredentialsView {
            peer_id: wire::opt_view(self.peer_id),
            location_hint: wire::opt_view(self.location_hint),
        }
    }
}

impl Default for WebRtcCredentials {
    fn default() -> (r: WebRtcCredentials)
        ensures
            r@ == WebRtcCredentialsView::unset(),
    {
        WebRtcCredentials {
            peer_id: None,
            location_hint: None,
        }
    }
}

impl Clone for WebRtcCredentials {
    fn clone(&self) -> (r: WebRtcCredentials)
        ensures
            r@ == self@,
    {
        self.copy()
    }
}

impl Message for WebRtcCredentials {
    open spec fn depth() -> nat {
        1
    }

    open spec fn parts(v: WebRtcCredentialsView) -> Seq<Part> {
        seq![
            (1, message::string_values(v.peer_id)),
            (2, message::message_values::<LocationHint>(v.location_hint)),
        ]
    }

    open spec fn from_fields(fields: Seq<FieldView>, limit: nat) -> Option<WebRtcCredentialsView> {
        let peer_id = message::string_of(message::values_of(fields, 1));
        let location_hint = message::message_of::<LocationHint>(message::values_of(fields, 2), limit);
        if peer_id is None
            || location_hint is None {
            None
        } else {
            Some(
                WebRtcCredentialsView {
                    peer_id: peer_id->0,
                    location_hint: location_hint->0,
                },
            )
        }
    }

    proof fn lemma_round_trip(v: WebRtcCredentialsView, limit: nat) {
        broadcast use message::group_round_trip;

        let parts = Self::parts(v);
        let fields = message::all_fields(parts);
        message::lemma_part(parts, 0);
        message::lemma_part(parts, 1);
        message::lemma_message_round_trip::<LocationHint>(v.location_hint, fields, 2, limit);
    }

    fn encode_to_vec(&self) -> Vec<u8> {
        let mut out = FieldWriter::new();
        out.put_string(1, &self.peer_id);
        out.put_message(2, &self.location_hint);
        assert(out@ =~= Self::parts(self@));
        out.finish()
    }

    fn copy(&self) -> WebRtcCredentials {
        WebRtcCredentials {
            peer_id: message::copy_string(&self.peer_id),
            location_hint: message::copy_message(&self.location_hint),
        }
    }

    fn read(fields: &[Field], limit: u32) -> Option<WebRtcCredentials> {
        let peer_id = message::read_string(fields, 1)?;
        let location_hint = message::read_message::<LocationHint>(fields, 2, limit)?;
        Some(
            WebRtcCredentials {
                peer_id,
                location_hint,
            },
        )
    }
}

/// How to reach an AWDL service.
#[derive(Debug, PartialEq, Eq)]
pub struct AwdlCredentials {
    pub service_name: Option<String>,
    pub service_type: Option<String>,
    pub password: Option<String>,
}

/// What [`AwdlCredentials`] stands for.
pub struct AwdlCredentialsView {
    pub service_name: Option<Seq<char>>,
    pub service_type: Option<Seq<char>>,
    pub password: Option<Seq<char>>,
}

impl AwdlCredentialsView {
    /// The message with nothing in it.
    pub open spec fn unset() -> AwdlCredentialsView {
        AwdlCredentialsView {
            service_name: None,
            service_type: None,
            password: None,
        }
    }
}

impl View for AwdlCredentials {
    type V = AwdlCredentialsView;

    open spec fn view(&self) -> AwdlCredentialsView {
        AwdlCredentialsView {
            service_name: wire::opt_view(self.service_name),
            service_type: wire::opt_view(self.service_type),
            password: wire::opt_view(self.password),
        }
    }
}

impl Default for AwdlCredentials {
    fn default() -> (r: AwdlCredentials)
        ensures
            r@ == AwdlCredentialsView::unset(),
    {
        AwdlCredentials {
            service_name: None,
            service_type: None,
            password: None,
        }
    }
}

impl Clone for AwdlCredentials {
    fn clone(&self) -> (r: AwdlCredentials)
        ensures
            r@ == self@,
    {
        self.copy()
    }
}

impl Message for AwdlCredentials {
    open spec fn depth() -> nat {
        0
    }

    open spec fn parts(v: AwdlCredentialsView) -> Seq<Part> {
        seq![
            (1, message::string_values(v.service_name)),
            (2, message::string_values(v.service_type)),
            (3, message::string_values(v.password)),
        ]
    }

    open spec fn from_fields(fields: Seq<FieldView>, limit: nat) -> Option<AwdlCredentialsView> {
        let service_name = message::string_of(message::values_of(fields, 1));
        let service_type = message::string_of(message::values_of(fields, 2));
        let password = message::string_of(message::values_of(fields, 3));
        if service_name is None
            || service_type is None
            || password is None {
            None
        } else {
            Some(
                AwdlCredentialsView {
                    service_name: service_name->0,
                    service_type: service_type->0,
                    password: password->0,
                },
            )
        }
    }

    proof fn lemma_round_trip(v: AwdlCredentialsView, limit: nat) {
        broadcast use message::group_round_trip;

        let parts = Self::parts(v);
        let fields = message::all_fields(parts);
        message::lemma_part(parts, 0);
        message::lemma_part(parts, 1);
        message::lemma_part(parts, 2);
    }

    fn encode_to_vec(&self) -> Vec<u8> {
        let mut out = FieldWriter::new();
        out.put_string(1, &self.service_name);
        out.put_string(2, &self.service_type);
        out.put_string(3, &self.password);
        assert(out@ =~= Self::parts(self@));
        out.finish()
    }

    fn copy(&self) -> AwdlCredentials {
        AwdlCredentials {
            service_name: message::copy_string(&self.service_name),
            service_type: message::copy_string(&self.service_type),
            password: message::copy_string(&self.password),
        }
    }

    fn read(fields: &[Field], limit: u32) -> Option<AwdlCredentials> {
        let service_name = message::read_string(fields, 1)?;
        let service_type = message::read_string(fields, 2)?;
        let password = message::read_string(fields, 3)?;
        Some(
            AwdlCredentials {
                service_name,
                service_type,
                password,
            },
        )
    }
}

/// Asks the peer to offer one of some mediums.
#[derive(Debug, PartialEq, Eq)]
pub struct UpgradePathRequest {
    pub mediums: Vec<i32>,
    pub medium_meta_data: Option<MediumMetadata>,
}

/// What [`UpgradePathRequest`] stands for.
pub struct UpgradePathRequestView {
    pub mediums: Seq<i32>,
    pub medium_meta_data: Option<MediumMetadataView>,
}

impl UpgradePathRequestView {
    /// The message with nothing in it.
    pub open spec fn unset() -> UpgradePathRequestView {
        UpgradePathRequestView {
            mediums: Seq::empty(),
            medium_meta_data: None,
        }
    }
}

impl View for UpgradePathRequest {
    type V = UpgradePathRequestView;

    open spec fn view(&self) -> UpgradePathRequestView {
        UpgradePathRequestView {
            mediums: self.mediums@,
            medium_meta_data: wire::opt_view(self.medium_meta_data),
        }
    }
}

impl Default for UpgradePathRequest {
    fn default() -> (r: UpgradePathRequest)
        ensures
            r@ == UpgradePathRequestView::unset(),
    {
        let r = UpgradePathRequest {
            mediums: Vec::new(),
            medium_meta_data: None,
        };
        r
    }
}

impl Clone for UpgradePathRequest {
    fn clone(&self) -> (r: UpgradePathRequest)
        ensures
            r@ == self@,
    {
        self.copy()
    }
}

impl Message for UpgradePathRequest {
    open spec fn depth() -> nat {
        2
    }

    open spec fn parts(v: UpgradePathRequestView) -> Seq<Part> {
        seq![
            (1, message::packed_values(v.mediums)),
            (2, message::message_values::<MediumMetadata>(v.medium_meta_data)),
        ]
    }

    open spec fn from_fields(fields: Seq<FieldView>, limit: nat) -> Option<UpgradePathRequestView> {
        let mediums = message::ints_of(message::values_of(fields, 1));
        let medium_meta_data = message::message_of::<MediumMetadata>(message::values_of(fields, 2), limit);
        if mediums is None
            || medium_meta_data is None {
            None
        } else {
            Some(
                UpgradePathRequestView {
                    mediums: mediums->0,
                    medium_meta_data: medium_meta_data->0,
                },
            )
        }
    }

    proof fn lemma_round_trip(v: UpgradePathRequestView, limit: nat) {
        broadcast use message::group_round_trip;

        let parts = Self::parts(v);
        let fields = message::all_fields(parts);
        message::lemma_part(parts, 0);
        message::lemma_part(parts, 1);
        message::lemma_message_round_trip::<MediumMetadata>(v.medium_meta_data, fields, 2, limit);
    }

    fn encode_to_vec(&self) -> Vec<u8> {
        let mut out = FieldWriter::new();
        out.put_packed(1, &self.mediums);
        out.put_message(2, &self.medium_meta_data);
        assert(out@ =~= Self::parts(self@));
        out.finish()
    }

    fn copy(&self) -> UpgradePathRequest {
        UpgradePathRequest {
            mediums: message::copy_ints(&self.mediums),
            medium_meta_data: message::copy_message(&self.medium_meta_data),
        }
    }

    fn read(fields: &[Field], limit: u32) -> Option<UpgradePathRequest> {
        let mediums = message::read_ints(fields, 1)?;
        let medium_meta_data = message::read_message::<MediumMetadata>(fields, 2, limit)?;
        Some(
            UpgradePathRequest {
                mediums,
                medium_meta_data,
            },
        )
    }
}

/// The medium of an upgrade, and the credentials that go with it.
#[derive(Debug, PartialEq, Eq)]
pub struct UpgradePathInfo {
    pub medium: Option<i32>,
    pub wifi_hotspot_credentials: Option<WifiHotspotCredentials>,
    pub wifi_lan_socket: Option<WifiLanSocket>,
    pub bluetooth_credentials: Option<BluetoothCredentials>,
    pub wifi_aware_credentials: Option<WifiAwareCredentials>,
    pub wifi_direct_credentials: Option<WifiDirectCredentials>,
    pub supports_disabling_encryption: Option<bool>,
    pub web_rtc_credentials: Option<WebRtcCredentials>,
    pub supports_client_introduction_ack: Option<bool>,
    pub upgrade_path_request: Option<UpgradePathRequest>,
    pub awdl_credentials: Option<AwdlCredentials>,
}

/// What [`UpgradePathInfo`] stands for.
pub struct UpgradePathInfoView {
    pub medium: Option<i32>,
    pub wifi_hotspot_credentials: Option<WifiHotspotCredentialsView>,
    pub wifi_lan_socket: Option<WifiLanSocketView>,
    pub bluetooth_credentials: Option<BluetoothCredentialsView>,
    pub wifi_aware_credentials: Option<WifiAwareCredentialsView>,
    pub wifi_direct_credentials: Option<WifiDirectCredentialsView>,
    pub supports_disabling_encryption: Option<bool>,
    pub web_rtc_credentials: Option<WebRtcCredentialsView>,
    pub supports_client_introduction_ack: Option<bool>,
    pub upgrade_path_request: Option<UpgradePathRequestView>,
    pub awdl_credentials: Option<AwdlCredentialsView>,
}

impl UpgradePathInfoView {
    /// The message with nothing in it.
    pub open spec fn unset() -> UpgradePathInfoView {
        UpgradePathInfoView {
            medium: None,
            wifi_hotspot_credentials: None,
            wifi_lan_socket: None,
            bluetooth_credentials: None,
            wifi_aware_credentials: None,
            wifi_direct_credentials: None,
            supports_disabling_encryption: None,
            web_rtc_credentials: None,
            supports_client_introduction_ack: None,
            upgrade_path_request: None,
            awdl_credentials: None,
        }
    }
}

impl View for UpgradePathInfo {
    type V = UpgradePathInfoView;

    open spec fn view(&self) -> UpgradePathInfoView {
        UpgradePathInfoView {
            medium: self.medium,
            wifi_hotspot_credentials: wire::opt_view(self.wifi_hotspot_credentials),
            wifi_lan_socket: wire::opt_view(self.wifi_lan_socket),
            bluetooth_credentials: wire::opt_view(self.bluetooth_credentials),
            wifi_aware_credentials: wire::opt_view(self.wifi_aware_credentials),
            wifi_direct_credentials: wire::opt_view(self.wifi_direct_credentials),
            supports_disabling_encryption: self.supports_disabling_encryption,
            web_rtc_credentials: wire::opt_view(self.web_rtc_credentials),
            supports_client_introduction_ack: self.supports_client_introduction_ack,
            upgrade_path_request: wire::opt_view(self.upgrade_path_request),
            awdl_credentials: wire::opt_view(self.awdl_credentials),
        }
    }
}

impl Default for UpgradePathInfo {
    fn default() -> (r: UpgradePathInfo)
        ensures
            r@ == UpgradePathInfoView::unset(),
    {
        UpgradePathInfo {
            medium: None,
            wifi_hotspot_credentials: None,
            wifi_lan_socket: None,
            bluetooth_credentials: None,
            wifi_aware_credentials: None,
            wifi_direct_credentials: None,
            supports_disabling_encryption: None,
            web_rtc_credentials: None,
            supports_client_introduction_ack: None,
            upgrade_path_request: None,
            awdl_credentials: None,
        }
    }
}

impl Clone for UpgradePathInfo {
    fn clone(&self) -> (r: UpgradePathInfo)
        ensures
            r@ == self@,
    {
        self.copy()
    }
}

impl Message for UpgradePathInfo {
    open spec fn depth() -> nat {
        3
    }

    open spec fn parts(v: UpgradePathInfoView) -> Seq<Part> {
        seq![
            (1, message::int32_values(v.medium)),
            (2, message::message_values::<WifiHotspotCredentials>(v.wifi_hotspot_credentials)),
            (3, message::message_values::<WifiLanSocket>(v.wifi_lan_socket)),
            (4, message::message_values::<BluetoothCredentials>(v.bluetooth_credentials)),
            (5, message::message_values::<WifiAwareCredentials>(v.wifi_aware_credentials)),
            (6, message::message_values::<WifiDirectCredentials>(v.wifi_direct_credentials)),
            (7, message::bool_values(v.supports_disabling_encryption)),
            (8, message::message_values::<WebRtcCredentials>(v.web_rtc_credentials)),
            (9, message::bool_values(v.supports_client_introduction_ack)),
            (10, message::message_values::<UpgradePathRequest>(v.upgrade_path_request)),
            (11, message::message_values::<AwdlCredentials>(v.awdl_credentials)),
        ]
    }

    open spec fn from_fields(fields: Seq<FieldView>, limit: nat) -> Option<UpgradePathInfoView> {
        let medium = message::int32_of(message::values_of(fields, 1));
        let wifi_hotspot_credentials = message::message_of::<WifiHotspotCredentials>(message::values_of(fields, 2), limit);
        let wifi_lan_socket = message::message_of::<WifiLanSocket>(message::values_of(fields, 3), limit);
        let bluetooth_credentials = message::message_of::<BluetoothCredentials>(message::values_of(fields, 4), limit);
        let wifi_aware_credentials = message::message_of::<WifiAwareCredentials>(message::values_of(fields, 5), limit);
        let wifi_direct_credentials = message::message_of::<WifiDirectCredentials>(message::values_of(fields, 6), limit);
        let supports_disabling_encryption = message::bool_of(message::values_of(fields, 7));
        let web_rtc_credentials = message::message_of::<WebRtcCredentials>(message::values_of(fields, 8), limit);
        let supports_client_introduction_ack = message::bool_of(message::values_of(fields, 9));
        let upgrade_path_request = message::message_of::<UpgradePathRequest>(message::values_of(fields, 10), limit);
        let awdl_credentials = message::message_of::<AwdlCredentials>(message::values_of(fields, 11), limit);
        if medium is None
            || wifi_hotspot_credentials is None
            || wifi_lan_socket is None
            || bluetooth_credentials is None
            || wifi_aware_credentials is None
            || wifi_direct_credentials is None
            || supports_disabling_encryption is None
            || web_rtc_credentials is None
            || supports_client_introduction_ack is None
            || upgrade_path_request is None
            || awdl_credentials is None {
            None
        } else {
            Some(
                UpgradePathInfoView {
                    medium: medium->0,
                    wifi_hotspot_credentials: wifi_hotspot_credentials->0,
                    wifi_lan_socket: wifi_lan_socket->0,
                    bluetooth_credentials: bluetooth_credentials->0,
                    wifi_aware_credentials: wifi_aware_credentials->0,
                    wifi_direct_credentials: wifi_direct_credentials->0,
                    supports_disabling_encryption: supports_disabling_encryption->0,
                    web_rtc_credentials: web_rtc_credentials->0,
                    supports_client_introduction_ack: supports_client_introduction_ack->0,
                    upgrade_path_request: upgrade_path_request->0,
                    awdl_credentials: awdl_credentials->0,
                },
            )
        }
    }

    proof fn lemma_round_trip(v: UpgradePathInfoView, limit: nat) {
        broadcast use message::group_round_trip;

        let parts = Self::parts(v);
        let fields = message::all_fields(parts);
        message::lemma_part(parts, 0);
        message::lemma_part(parts, 1);
        message::lemma_part(parts, 2);
        message::lemma_part(parts, 3);
        message::lemma_part(parts, 4);
        message::lemma_part(parts, 5);
        message::lemma_part(parts, 6);
        message::lemma_part(parts, 7);
        message::lemma_part(parts, 8);
        message::lemma_part(parts, 9);
        message::lemma_part(parts, 10);
        message::lemma_message_round_trip::<WifiHotspotCredentials>(v.wifi_hotspot_credentials, fields, 2, limit);
        message::lemma_message_round_trip::<WifiLanSocket>(v.wifi_lan_socket, fields, 3, limit);
        message::lemma_message_round_trip::<BluetoothCredentials>(v.bluetooth_credentials, fields, 4, limit);
        message::lemma_message_round_trip::<WifiAwareCredentials>(v.wifi_aware_credentials, fields, 5, limit);
        message::lemma_message_round_trip::<WifiDirectCredentials>(v.wifi_direct_credentials, fields, 6, limit);
        message::lemma_message_round_trip::<WebRtcCredentials>(v.web_rtc_credentials, fields, 8, limit);
        message::lemma_message_round_trip::<UpgradePathRequest>(v.upgrade_path_request, fields, 10, limit);
        message::lemma_message_round_trip::<AwdlCredentials>(v.awdl_credentials, fields, 11, limit);
    }

    fn encode_to_vec(&self) -> Vec<u8> {
        let mut out = FieldWriter::new();
        out.put_int32(1, self.medium);
        out.put_message(2, &self.wifi_hotspot_credentials);
        out.put_message(3, &self.wifi_lan_socket);
        out.put_message(4, &self.bluetooth_credentials);
        out.put_message(5, &self.wifi_aware_credentials);
        out.put_message(6, &self.wifi_direct_credentials);
        out.put_bool(7, self.supports_disabling_encryption);
        out.put_message(8, &self.web_rtc_credentials);
        out.put_bool(9, self.supports_client_introduction_ack);
        out.put_message(10, &self.upgrade_path_request);
        out.put_message(11, &self.awdl_credentials);
        assert(out@ =~= Self::parts(self@));
        out.finish()
    }

    fn copy(&self) -> UpgradePathInfo {
        UpgradePathInfo {
            medium: self.medium,
            wifi_hotspot_credentials: message::copy_message(&self.wifi_hotspot_credentials),
            wifi_lan_socket: message::copy_message(&self.wifi_lan_socket),
            bluetooth_credentials: message::copy_message(&self.bluetooth_credentials),
            wifi_aware_credentials: message::copy_message(&self.wifi_aware_credentials),
            wifi_direct_credentials: message::copy_message(&self.wifi_direct_credentials),
            supports_disabling_encryption: self.supports_disabling_encryption,
            web_rtc_credentials: message::copy_message(&self.web_rtc_credentials),
            supports_client_introduction_ack: self.supports_client_introduction_ack,
            upgrade_path_request: message::copy_message(&self.upgrade_path_request),
            awdl_credentials: message::copy_message(&self.awdl_credentials),
        }
    }

    fn read(fields: &[Field], limit: u32) -> Option<UpgradePathInfo> {
        let medium = message::read_int32(fields, 1)?;
        let wifi_hotspot_credentials = message::read_message::<WifiHotspotCredentials>(fields, 2, limit)?;
        let wifi_lan_socket = message::read_message::<WifiLanSocket>(fields, 3, limit)?;
        let bluetooth_credentials = message::read_message::<BluetoothCredentials>(fields, 4, limit)?;
        let wifi_aware_credentials = message::read_message::<WifiAwareCredentials>(fields, 5, limit)?;
        let wifi_direct_credentials = message::read_message::<WifiDirectCredentials>(fields, 6, limit)?;
        let supports_disabling_encryption = message::read_bool(fields, 7)?;
        let web_rtc_credentials = message::read_message::<WebRtcCredentials>(fields, 8, limit)?;
        let supports_client_introduction_ack = message::read_bool(fields, 9)?;
        let upgrade_path_request = message::read_message::<UpgradePathRequest>(fields, 10, limit)?;
        let awdl_credentials = message::read_message::<AwdlCredentials>(fields, 11, limit)?;
        Some(
            UpgradePathInfo {
                medium,
                wifi_hotspot_credentials,
                wifi_lan_socket,
                bluetooth_credentials,
                wifi_aware_credentials,
                wifi_direct_credentials,
                supports_disabling_encryption,
                web_rtc_credentials,
                supports_client_introduction_ack,
                upgrade_path_request,
                awdl_credentials,
            },
        )
    }
}

} // verus!

//! What a device says of its mediums.

use vstd::prelude::*;

use crate::message;
use crate::message::{FieldWriter, Message, Part};
use crate::proto::medium_role::MediumRole;
use crate::proto::usable_channels::{
    AvailableChannels, AvailableChannelsView, WifiAwareUsableChannels,
    WifiAwareUsableChannelsView, WifiDirectCliUsableChannels, WifiDirectCliUsableChannelsView,
    WifiHotspotStaUsableChannels, WifiHotspotStaUsableChannelsView, WifiLanUsableChannels,
    WifiLanUsableChannelsView,
};
use crate::wire;
use crate::wire::{Field, FieldView};

verus! {

/// How a device joins a Wi-Fi Direct group.
#[derive(Clone, Copy, Debug, PartialEq, Eq, Hash, Structural)]
pub enum WifiDirectAuthType {
    WifiDirectTypeUnknown,
    WifiDirectWithPassword,
    WifiDirectWithPin,
    WifiDirectWithDeviceName,
}

impl WifiDirectAuthType {
    /// The number that stands for the variant on the wire.
    pub open spec fn spec_value(self) -> i32 {
        match self {
            WifiDirectAuthType::WifiDirectTypeUnknown => 0,
            WifiDirectAuthType::WifiDirectWithPassword => 1,
            WifiDirectAuthType::WifiDirectWithPin => 2,
            WifiDirectAuthType::WifiDirectWithDeviceName => 3,
        }
    }

    /// The variant that a number stands for.
    pub open spec fn spec_from_i32(value: i32) -> Option<WifiDirectAuthType> {
        match value {
            0 => Some(WifiDirectAuthType::WifiDirectTypeUnknown),
            1 => Some(WifiDirectAuthType::WifiDirectWithPassword),
            2 => Some(WifiDirectAuthType::WifiDirectWithPin),
            3 => Some(WifiDirectAuthType::WifiDirectWithDeviceName),
            _ => None,
        }
    }

    #[verifier::when_used_as_spec(spec_value)]
    pub fn value(self) -> (r: i32)
        ensures
            r == self.spec_value(),
    {
        match self {
            WifiDirectAuthType::WifiDirectTypeUnknown => 0,
            WifiDirectAuthType::WifiDirectWithPassword => 1,
            WifiDirectAuthType::WifiDirectWithPin => 2,
            WifiDirectAuthType::WifiDirectWithDeviceName => 3,
        }
    }

    #[verifier::when_used_as_spec(spec_from_i32)]
    pub fn from_i32(value: i32) -> (r: Option<WifiDirectAuthType>)
        ensures
            r == WifiDirectAuthType::spec_from_i32(value),
    {
        match value {
            0 => Some(WifiDirectAuthType::WifiDirectTypeUnknown),
            1 => Some(WifiDirectAuthType::WifiDirectWithPassword),
            2 => Some(WifiDirectAuthType::WifiDirectWithPin),
            3 => Some(WifiDirectAuthType::WifiDirectWithDeviceName),
            _ => None,
        }
    }

    /// A number stands for a variant if and only if it is the number of that variant.
    pub proof fn lemma_number(self, value: i32)
        ensures
            WifiDirectAuthType::from_i32(value) == Some(self) <==> value == self.value(),
    {
    }
}

/// What a device says of its mediums.
#[derive(Debug, PartialEq, Eq)]
pub struct MediumMetadata {
    pub supports_5_ghz: Option<bool>,
    pub bssid: Option<String>,
    pub ip_address: Option<Vec<u8>>,
    pub supports_6_ghz: Option<bool>,
    pub mobile_radio: Option<bool>,
    pub ap_frequency: Option<i32>,
    pub available_channels: Option<AvailableChannels>,
    pub wifi_direct_cli_usable_channels: Option<WifiDirectCliUsableChannels>,
    pub wifi_lan_usable_channels: Option<WifiLanUsableChannels>,
    pub wifi_aware_usable_channels: Option<WifiAwareUsableChannels>,
    pub wifi_hotspot_sta_usable_channels: Option<WifiHotspotStaUsableChannels>,
    pub medium_role: Option<MediumRole>,
    pub supported_wifi_direct_auth_types: Vec<i32>,
}

/// What [`MediumMetadata`] stands for.
pub struct MediumMetadataView {
    pub supports_5_ghz: Option<bool>,
    pub bssid: Option<Seq<char>>,
    pub ip_address: Option<Seq<u8>>,
    pub supports_6_ghz: Option<bool>,
    pub mobile_radio: Option<bool>,
    pub ap_frequency: Option<i32>,
    pub available_channels: Option<AvailableChannelsView>,
    pub wifi_direct_cli_usable_channels: Option<WifiDirectCliUsableChannelsView>,
    pub wifi_lan_usable_channels: Option<WifiLanUsableChannelsView>,
    pub wifi_aware_usable_channels: Option<WifiAwareUsableChannelsView>,
    pub wifi_hotspot_sta_usable_channels: Option<WifiHotspotStaUsableChannelsView>,
    pub medium_role: Option<MediumRole>,
    pub supported_wifi_direct_auth_types: Seq<i32>,
}

impl MediumMetadataView {
    /// The message with nothing in it.
    pub open spec fn unset() -> MediumMetadataView {
        MediumMetadataView {
            supports_5_ghz: None,
            bssid: None,
            ip_address: None,
            supports_6_ghz: None,
            mobile_radio: None,
            ap_frequency: None,
            available_channels: None,
            wifi_direct_cli_usable_channels: None,
            wifi_lan_usable_channels: None,
            wifi_aware_usable_channels: None,
            wifi_hotspot_sta_usable_channels: None,
            medium_role: None,
            supported_wifi_direct_auth_types: Seq::empty(),
        }
    }
}

impl View for MediumMetadata {
    type V = MediumMetadataView;

    open spec fn view(&self) -> MediumMetadataView {
        MediumMetadataView {
            supports_5_ghz: self.supports_5_ghz,
            bssid: wire::opt_view(self.bssid),
            ip_address: wire::opt_view(self.ip_address),
            supports_6_ghz: self.supports_6_ghz,
            mobile_radio: self.mobile_radio,
            ap_frequency: self.ap_frequency,
            available_channels: wire::opt_view(self.available_channels),
            wifi_direct_cli_usable_channels: wire::opt_view(self.wifi_direct_cli_usable_channels),
            wifi_lan_usable_channels: wire::opt_view(self.wifi_lan_usable_channels),
            wifi_aware_usable_channels: wire::opt_view(self.wifi_aware_usable_channels),
            wifi_hotspot_sta_usable_channels: wire::opt_view(self.wifi_hotspot_sta_usable_channels),
            medium_role: wire::opt_view(self.medium_role),
            supported_wifi_direct_auth_types: self.supported_wifi_direct_auth_types@,
        }
    }
}

impl Default for MediumMetadata {
    fn default() -> (r: MediumMetadata)
        ensures
            r@ == MediumMetadataView::unset(),
    {
        MediumMetadata {
            supports_5_ghz: None,
            bssid: None,
            ip_address: None,
            supports_6_ghz: None,
            mobile_radio: None,
            ap_frequency: None,
            available_channels: None,
            wifi_direct_cli_usable_channels: None,
            wifi_lan_usable_channels: None,
            wifi_aware_usable_channels: None,
            wifi_hotspot_sta_usable_channels: None,
            medium_role: None,
            supported_wifi_direct_auth_types: Vec::new(),
        }
    }
}

impl Clone for MediumMetadata {
    fn clone(&self) -> (r: MediumMetadata)
        ensures
            r@ == self@,
    {
        self.copy()
    }
}

impl Message for MediumMetadata {
    open spec fn depth() -> nat {
        1
    }

    open spec fn parts(v: MediumMetadataView) -> Seq<Part> {
        seq![
            (1, message::bool_values(v.supports_5_ghz)),
            (2, message::string_values(v.bssid)),
            (3, message::bytes_values(v.ip_address)),
            (4, message::bool_values(v.supports_6_ghz)),
            (5, message::bool_values(v.mobile_radio)),
            (6, message::int32_values(v.ap_frequency)),
            (7, message::message_values::<AvailableChannels>(v.available_channels)),
            (8, message::message_values::<WifiDirectCliUsableChannels>(v.wifi_direct_cli_usable_channels)),
            (9, message::message_values::<WifiLanUsableChannels>(v.wifi_lan_usable_channels)),
            (10, message::message_values::<WifiAwareUsableChannels>(v.wifi_aware_usable_channels)),
            (11, message::message_values::<WifiHotspotStaUsableChannels>(v.wifi_hotspot_sta_usable_channels)),
            (12, message::message_values::<MediumRole>(v.medium_role)),
            (13, message::ints_values(v.supported_wifi_direct_auth_types)),
        ]
    }

    open spec fn from_fields(fields: Seq<FieldView>, limit: nat) -> Option<MediumMetadataView> {
        let supports_5_ghz = message::bool_of(message::values_of(fields, 1));
        let bssid = message::string_of(message::values_of(fields, 2));
        let ip_address = message::bytes_of(message::values_of(fields, 3));
        let supports_6_ghz = message::bool_of(message::values_of(fields, 4));
        let mobile_radio = message::bool_of(message::values_of(fields, 5));
        let ap_frequency = message::int32_of(message::values_of(fields, 6));
        let available_channels = message::message_of::<AvailableChannels>(message::values_of(fields, 7), limit);
        let wifi_direct_cli_usable_channels = message::message_of::<WifiDirectCliUsableChannels>(message::values_of(fields, 8), limit);
        let wifi_lan_usable_channels = message::message_of::<WifiLanUsableChannels>(message::values_of(fields, 9), limit);
        let wifi_aware_usable_channels = message::message_of::<WifiAwareUsableChannels>(message::values_of(fields, 10), limit);
        let wifi_hotspot_sta_usable_channels = message::message_of::<WifiHotspotStaUsableChannels>(message::values_of(fields, 11), limit);
        let medium_role = message::message_of::<MediumRole>(message::values_of(fields, 12), limit);
        let supported_wifi_direct_auth_types = message::ints_of(message::values_of(fields, 13));
        if supports_5_ghz is None
            || bssid is None
            || ip_address is None
            || supports_6_ghz is None
            || mobile_radio is None
            || ap_frequency is None
            || available_channels is None
            || wifi_direct_cli_usable_channels is None
            || wifi_lan_usable_channels is None
            || wifi_aware_usable_channels is None
            || wifi_hotspot_sta_usable_channels is None
            || medium_role is None
            || supported_wifi_direct_auth_types is None {
            None
        } else {
            Some(
                MediumMetadataView {
                    supports_5_ghz: supports_5_ghz->0,
                    bssid: bssid->0,
                    ip_address: ip_address->0,
                    supports_6_ghz: supports_6_ghz->0,
                    mobile_radio: mobile_radio->0,
                    ap_frequency: ap_frequency->0,
                    available_channels: available_channels->0,
                    wifi_direct_cli_usable_channels: wifi_direct_cli_usable_channels->0,
                    wifi_lan_usable_channels: wifi_lan_usable_channels->0,
                    wifi_aware_usable_channels: wifi_aware_usable_channels->0,
                    wifi_hotspot_sta_usable_channels: wifi_hotspot_sta_usable_channels->0,
                    medium_role: medium_role->0,
                    supported_wifi_direct_auth_types: supported_wifi_direct_auth_types->0,
                },
            )
        }
    }

    proof fn lemma_round_trip(v: MediumMetadataView, limit: nat) {
        broadcast use message::group_round_trip;

        let parts = Self::parts(v);
        let fields = message::all_fields(parts);
        message::lemma_part(parts, 0);
        message::lemma_part(parts, 1);
        message::lemma_part(parts, 2);
        message::lemma_part(parts, 3);
        message::lemma_part(parts, 4);
        message::lemma_part(parts, 5);
        message::lemma_part(parts, 6);
        message::lemma_part(parts, 7);
        message::lemma_part(parts, 8);
        message::lemma_part(parts, 9);
        message::lemma_part(parts, 10);
        message::lemma_part(parts, 11);
        message::lemma_part(parts, 12);
        message::lemma_message_round_trip::<AvailableChannels>(v.available_channels, fields, 7, limit);
        message::lemma_message_round_trip::<WifiDirectCliUsableChannels>(v.wifi_direct_cli_usable_channels, fields, 8, limit);
        message::lemma_message_round_trip::<WifiLanUsableChannels>(v.wifi_lan_usable_channels, fields, 9, limit);
        message::lemma_message_round_trip::<WifiAwareUsableChannels>(v.wifi_aware_usable_channels, fields, 10, limit);
        message::lemma_message_round_trip::<WifiHotspotStaUsableChannels>(v.wifi_hotspot_sta_usable_channels, fields, 11, limit);
        message::lemma_message_round_trip::<MediumRole>(v.medium_role, fields, 12, limit);
    }

    fn encode_to_vec(&self) -> Vec<u8> {
        let mut out = FieldWriter::new();
        out.put_bool(1, self.supports_5_ghz);
        out.put_string(2, &self.bssid);
        out.put_bytes(3, &self.ip_address);
        out.put_bool(4, self.supports_6_ghz);
        out.put_bool(5, self.mobile_radio);
        out.put_int32(6, self.ap_frequency);
        out.put_message(7, &self.available_channels);
        out.put_message(8, &self.wifi_direct_cli_usable_channels);
        out.put_message(9, &self.wifi_lan_usable_channels);
        out.put_message(10, &self.wifi_aware_usable_channels);
        out.put_message(11, &self.wifi_hotspot_sta_usable_channels);
        out.put_message(12, &self.medium_role);
        out.put_ints(13, &self.supported_wifi_direct_auth_types);
        assert(out@ =~= Self::parts(self@));
        out.finish()
    }

    fn copy(&self) -> MediumMetadata {
        MediumMetadata {
            supports_5_ghz: self.supports_5_ghz,
            bssid: message::copy_string(&self.bssid),
            ip_address: message::copy_bytes(&self.ip_address),
            supports_6_ghz: self.supports_6_ghz,
            mobile_radio: self.mobile_radio,
            ap_frequency: self.ap_frequency,
            available_channels: message::copy_message(&self.available_channels),
            wifi_direct_cli_usable_channels: message::copy_message(&self.wifi_direct_cli_usable_channels),
            wifi_lan_usable_channels: message::copy_message(&self.wifi_lan_usable_channels),
            wifi_aware_usable_channels: message::copy_message(&self.wifi_aware_usable_channels),
            wifi_hotspot_sta_usable_channels: message::copy_message(&self.wifi_hotspot_sta_usable_channels),
            medium_role: message::copy_message(&self.medium_role),
            supported_wifi_direct_auth_types: message::copy_ints(&self.supported_wifi_direct_auth_types),
        }
    }

    fn read(fields: &[Field], limit: u32) -> Option<MediumMetadata> {
        let supports_5_ghz = message::read_bool(fields, 1)?;
        let bssid = message::read_string(fields, 2)?;
        let ip_address = message::read_bytes(fields, 3)?;
        let supports_6_ghz = message::read_bool(fields, 4)?;
        let mobile_radio = message::read_bool(fields, 5)?;
        let ap_frequency = message::read_int32(fields, 6)?;
        let available_channels = message::read_message::<AvailableChannels>(fields, 7, limit)?;
        let wifi_direct_cli_usable_channels = message::read_message::<WifiDirectCliUsableChannels>(fields, 8, limit)?;
        let wifi_lan_usable_channels = message::read_message::<WifiLanUsableChannels>(fields, 9, limit)?;
        let wifi_aware_usable_channels = message::read_message::<WifiAwareUsableChannels>(fields, 10, limit)?;
        let wifi_hotspot_sta_usable_channels = message::read_message::<WifiHotspotStaUsableChannels>(fields, 11, limit)?;
        let medium_role = message::read_message::<MediumRole>(fields, 12, limit)?;
        let supported_wifi_direct_auth_types = message::read_ints(fields, 13)?;
        Some(
            MediumMetadata {
                supports_5_ghz,
                bssid,
                ip_address,
                supports_6_ghz,
                mobile_radio,
                ap_frequency,
                available_channels,
                wifi_direct_cli_usable_channels,
                wifi_lan_usable_channels,
                wifi_aware_usable_channels,
                wifi_hotspot_sta_usable_channels,
                medium_role,
                supported_wifi_direct_auth_types,
            },
        )
    }
}

} // verus!

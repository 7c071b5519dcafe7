//! The mediums over which two devices connect.

use vstd::prelude::*;

verus! {

/// A medium.
#[derive(Clone, Copy, Debug, PartialEq, Eq, Hash, PartialOrd, Ord, Structural)]
pub enum Medium {
    UnknownMedium,
    Mdns,
    Bluetooth,
    WifiHotspot,
    Ble,
    WifiLan,
    WifiAware,
    Nfc,
    WifiDirect,
    WebRtc,
    BleL2cap,
    Usb,
    WebRtcNonCellular,
    Awdl,
}

/// What a medium is called.
pub open spec fn name_of(medium: Medium) -> Seq<char> {
    match medium {
        Medium::UnknownMedium => "UnknownMedium"@,
        Medium::Mdns => "Mdns"@,
        Medium::Bluetooth => "Bluetooth"@,
        Medium::WifiHotspot => "WifiHotspot"@,
        Medium::Ble => "Ble"@,
        Medium::WifiLan => "WifiLan"@,
        Medium::WifiAware => "WifiAware"@,
        Medium::Nfc => "Nfc"@,
        Medium::WifiDirect => "WifiDirect"@,
        Medium::WebRtc => "WebRtc"@,
        Medium::BleL2cap => "BleL2cap"@,
        Medium::Usb => "Usb"@,
        Medium::WebRtcNonCellular => "WebRtcNonCellular"@,
        Medium::Awdl => "Awdl"@,
    }
}

impl Medium {
    /// What the medium is called.
    pub fn name(self) -> (r: &'static str)
        ensures
            r@ == name_of(self),
    {
        match self {
            Medium::UnknownMedium => "UnknownMedium",
            Medium::Mdns => "Mdns",
            Medium::Bluetooth => "Bluetooth",
            Medium::WifiHotspot => "WifiHotspot",
            Medium::Ble => "Ble",
            Medium::WifiLan => "WifiLan",
            Medium::WifiAware => "WifiAware",
            Medium::Nfc => "Nfc",
            Medium::WifiDirect => "WifiDirect",
            Medium::WebRtc => "WebRtc",
            Medium::BleL2cap => "BleL2cap",
            Medium::Usb => "Usb",
            Medium::WebRtcNonCellular => "WebRtcNonCellular",
            Medium::Awdl => "Awdl",
        }
    }

    /// The number that stands for the medium.
    pub open spec fn spec_value(self) -> i32 {
        match self {
            Medium::UnknownMedium => 0,
            Medium::Mdns => 1,
            Medium::Bluetooth => 2,
            Medium::WifiHotspot => 3,
            Medium::Ble => 4,
            Medium::WifiLan => 5,
            Medium::WifiAware => 6,
            Medium::Nfc => 7,
            Medium::WifiDirect => 8,
            Medium::WebRtc => 9,
            Medium::BleL2cap => 10,
            Medium::Usb => 11,
            Medium::WebRtcNonCellular => 12,
            Medium::Awdl => 13,
        }
    }

    /// The variant that a number stands for.
    pub open spec fn spec_from_i32(value: i32) -> Option<Medium> {
        match value {
            0 => Some(Medium::UnknownMedium),
            1 => Some(Medium::Mdns),
            2 => Some(Medium::Bluetooth),
            3 => Some(Medium::WifiHotspot),
            4 => Some(Medium::Ble),
            5 => Some(Medium::WifiLan),
            6 => Some(Medium::WifiAware),
            7 => Some(Medium::Nfc),
            8 => Some(Medium::WifiDirect),
            9 => Some(Medium::WebRtc),
            10 => Some(Medium::BleL2cap),
            11 => Some(Medium::Usb),
            12 => Some(Medium::WebRtcNonCellular),
            13 => Some(Medium::Awdl),
            _ => None,
        }
    }

    #[verifier::when_used_as_spec(spec_value)]
    pub fn value(self) -> (r: i32)
        ensures
            r == self.spec_value(),
    {
        match self {
            Medium::UnknownMedium => 0,
            Medium::Mdns => 1,
            Medium::Bluetooth => 2,
            Medium::WifiHotspot => 3,
            Medium::Ble => 4,
            Medium::WifiLan => 5,
            Medium::WifiAware => 6,
            Medium::Nfc => 7,
            Medium::WifiDirect => 8,
            Medium::WebRtc => 9,
            Medium::BleL2cap => 10,
            Medium::Usb => 11,
            Medium::WebRtcNonCellular => 12,
            Medium::Awdl => 13,
        }
    }

    #[verifier::when_used_as_spec(spec_from_i32)]
    pub fn from_i32(value: i32) -> (r: Option<Medium>)
        ensures
            r == Medium::spec_from_i32(value),
    {
        match value {
            0 => Some(Medium::UnknownMedium),
            1 => Some(Medium::Mdns),
            2 => Some(Medium::Bluetooth),
            3 => Some(Medium::WifiHotspot),
            4 => Some(Medium::Ble),
            5 => Some(Medium::WifiLan),
            6 => Some(Medium::WifiAware),
            7 => Some(Medium::Nfc),
            8 => Some(Medium::WifiDirect),
            9 => Some(Medium::WebRtc),
            10 => Some(Medium::BleL2cap),
            11 => Some(Medium::Usb),
            12 => Some(Medium::WebRtcNonCellular),
            13 => Some(Medium::Awdl),
            _ => None,
        }
    }

    /// A number stands for a variant if and only if it is the number of that variant.
    pub proof fn lemma_number(self, value: i32)
        ensures
            Medium::from_i32(value) == Some(self) <==> value == self.value(),
    {
    }
}

/// How a device joins a Wi-Fi Direct group. Joining by a PIN is no longer used.
#[derive(Clone, Copy, Debug, PartialEq, Eq, Hash, PartialOrd, Ord, Structural)]
pub enum WifiDirectAuthType {
    WifiDirectTypeUnknown,
    WifiDirectWithPassword,
    WifiDirectWithPin,
    WifiDirectWithDeviceName,
}

/// A medium is called by the name of its variant.
pub proof fn lemma_medium_names()
    ensures
        name_of(Medium::UnknownMedium) == "UnknownMedium"@,
        name_of(Medium::Mdns) == "Mdns"@,
        name_of(Medium::Bluetooth) == "Bluetooth"@,
        name_of(Medium::WifiHotspot) == "WifiHotspot"@,
        name_of(Medium::Ble) == "Ble"@,
        name_of(Medium::WifiLan) == "WifiLan"@,
        name_of(Medium::WifiAware) == "WifiAware"@,
        name_of(Medium::Nfc) == "Nfc"@,
        name_of(Medium::WifiDirect) == "WifiDirect"@,
        name_of(Medium::WebRtc) == "WebRtc"@,
        name_of(Medium::BleL2cap) == "BleL2cap"@,
        name_of(Medium::Usb) == "Usb"@,
        name_of(Medium::WebRtcNonCellular) == "WebRtcNonCellular"@,
        name_of(Medium::Awdl) == "Awdl"@,
{
}

} // verus!

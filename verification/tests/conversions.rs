use nearby_rs::frames::{
    connection_request_medium_to_medium, for_connection_request_presence,
    medium_to_connection_request_medium, medium_to_upgrade_path_info_medium,
    upgrade_path_info_medium_to_medium, ConnectionInfo,
};
use nearby_rs::mediums::Medium;
use nearby_rs::proto as pb;
use nearby_rs::proto::bandwidth_upgrade_negotiation_frame::upgrade_path_info::Medium as Upi;
use nearby_rs::text::{address_text, parse_address};

const ALL_MEDIUMS: [Medium; 14] = [
    Medium::UnknownMedium,
    Medium::Mdns,
    Medium::Bluetooth,
    Medium::WifiHotspot,
    Medium::Ble,
    Medium::WifiLan,
    Medium::WifiAware,
    Medium::Nfc,
    Medium::WifiDirect,
    Medium::WebRtc,
    Medium::BleL2cap,
    Medium::Usb,
    Medium::WebRtcNonCellular,
    Medium::Awdl,
];

#[test]
fn connection_request_medium_round_trips() {
    for m in ALL_MEDIUMS {
        assert_eq!(connection_request_medium_to_medium(medium_to_connection_request_medium(m)), m);
    }
}

#[test]
fn presence_request_emits_present_empty_endpoint_id_when_device_has_none() {
    // The id is present and empty even when the device has none.
    let info = ConnectionInfo {
        local_endpoint_id: "ABC".into(),
        local_endpoint_info: b"X".to_vec(),
        ..Default::default()
    };
    let device = pb::PresenceDevice { endpoint_id: None, ..Default::default() };
    let frame =
        pb::OfflineFrame::decode(&for_connection_request_presence(device, &info)[..]).unwrap();
    let req = frame.v1.unwrap().connection_request.unwrap();
    assert_eq!(req.endpoint_id, Some(String::new()));
}

#[test]
fn upgrade_path_info_medium_round_trips() {
    for m in ALL_MEDIUMS {
        // An upgrade path cannot name this one.
        if m == Medium::BleL2cap {
            assert_eq!(medium_to_upgrade_path_info_medium(m), Upi::UnknownMedium);
            continue;
        }
        assert_eq!(
            upgrade_path_info_medium_to_medium(medium_to_upgrade_path_info_medium(m)),
            m
        );
    }
}

#[test]
fn names_of_mediums() {
    for m in ALL_MEDIUMS {
        assert_eq!(m.name(), format!("{m:?}"));
        assert_eq!(Medium::from_i32(m.value()), Some(m));
    }
    assert_eq!(Medium::from_i32(14), None);
}

#[test]
fn addresses_round_trip() {
    for (address, text) in [
        ([127, 0, 0, 1], "127.0.0.1"),
        ([0, 0, 0, 0], "0.0.0.0"),
        ([255, 99, 10, 9], "255.99.10.9"),
    ] {
        assert_eq!(address_text(&address), text);
        assert_eq!(parse_address(text), Some(address));
    }
    for text in ["", "1.2.3", "1.2.3.4.5", "01.2.3.4", "1.2.3.256", " 1.2.3.4", "1.2.3.4 ", "a.b.c.d"] {
        assert_eq!(parse_address(text), None);
    }
}

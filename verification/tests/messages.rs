use nearby_rs::frames::{from_bytes, get_frame_type, Exception};
use nearby_rs::message::{decode, Message};
use nearby_rs::proto as pb;
use nearby_rs::proto::offline_frame::Version;
use nearby_rs::proto::v1_frame::FrameType;

fn frame(type_: FrameType, v1: pb::V1Frame) -> pb::OfflineFrame {
    pb::OfflineFrame {
        version: Some(Version::V1.value()),
        v1: Some(pb::V1Frame { type_: Some(type_.value()), ..v1 }),
    }
}

fn round_trips(type_: FrameType, v1: pb::V1Frame) {
    let tx = frame(type_, v1);
    let rx = from_bytes(&tx.encode_to_vec()).expect("frame should parse");
    assert_eq!(get_frame_type(&rx), type_);
    assert_eq!(rx, tx);
}

#[test]
fn paired_key_frame_round_trips() {
    round_trips(
        FrameType::PairedKeyEncryption,
        pb::V1Frame {
            paired_key_encryption: Some(pb::PairedKeyEncryptionFrame {
                signed_data: Some(vec![1, 2, 3]),
            }),
            ..Default::default()
        },
    );
}

#[test]
fn authentication_frames_round_trip() {
    round_trips(
        FrameType::AuthenticationMessage,
        pb::V1Frame {
            authentication_message: Some(pb::AuthenticationMessageFrame {
                auth_message: Some(vec![9]),
            }),
            ..Default::default()
        },
    );
    round_trips(
        FrameType::AuthenticationResult,
        pb::V1Frame {
            authentication_result: Some(pb::AuthenticationResultFrame { result: Some(-2) }),
            ..Default::default()
        },
    );
}

#[test]
fn auto_frames_round_trip() {
    round_trips(
        FrameType::AutoResume,
        pb::V1Frame {
            auto_resume: Some(pb::AutoResumeFrame {
                event_type: Some(
                    pb::auto_resume_frame::EventType::PayloadResumeTransferStart.value(),
                ),
                pending_payload_id: Some(-7),
                next_payload_chunk_index: Some(3),
                version: Some(1),
            }),
            ..Default::default()
        },
    );
    round_trips(
        FrameType::AutoReconnect,
        pb::V1Frame {
            auto_reconnect: Some(pb::AutoReconnectFrame {
                endpoint_id: Some("ABCD".to_string()),
                event_type: Some(pb::auto_reconnect_frame::EventType::ClientIntroduction.value()),
                last_endpoint_id: Some("WXYZ".to_string()),
            }),
            ..Default::default()
        },
    );
}

#[test]
fn upgrade_retry_frame_round_trips() {
    round_trips(
        FrameType::BandwidthUpgradeRetry,
        pb::V1Frame {
            bandwidth_upgrade_retry: Some(pb::BandwidthUpgradeRetryFrame {
                supported_medium: vec![5, 8],
                is_request: Some(true),
            }),
            ..Default::default()
        },
    );
}

#[test]
fn malformed_sub_frame_is_rejected() {
    // Field 8 of the frame holds a field that breaks off.
    let v1 = [0x08, 7, 0x42, 2, 0x0a, 5];
    let mut bytes = vec![0x08, 1, 0x12, v1.len() as u8];
    bytes.extend_from_slice(&v1);
    assert_eq!(from_bytes(&bytes), Err(Exception::InvalidProtocolBuffer));
}

#[test]
fn usable_channels_are_packed() {
    let metadata = pb::MediumMetadata {
        available_channels: Some(pb::AvailableChannels { channels: vec![1, 300] }),
        wifi_direct_cli_usable_channels: Some(pb::WifiDirectCliUsableChannels {
            channels: vec![2],
        }),
        wifi_lan_usable_channels: Some(pb::WifiLanUsableChannels { channels: vec![3] }),
        wifi_aware_usable_channels: Some(pb::WifiAwareUsableChannels { channels: vec![4] }),
        wifi_hotspot_sta_usable_channels: Some(pb::WifiHotspotStaUsableChannels {
            channels: Vec::new(),
        }),
        ..Default::default()
    };
    let bytes = metadata.encode_to_vec();
    assert_eq!(
        bytes,
        vec![
            0x3a, 5, 0x0a, 3, 1, 0xac, 2, 0x42, 3, 0x0a, 1, 2, 0x4a, 3, 0x0a, 1, 3, 0x52, 3, 0x0a,
            1, 4, 0x5a, 0,
        ]
    );
    assert_eq!(decode::<pb::MediumMetadata>(&bytes), Some(metadata));

    // Numbers that come one by one are taken, too.
    let loose = [0x08, 1, 0x08, 0xac, 2];
    assert_eq!(
        decode::<pb::AvailableChannels>(&loose),
        Some(pb::AvailableChannels { channels: vec![1, 300] })
    );
}

#[test]
fn presence_device_round_trips() {
    let device = pb::PresenceDevice {
        device_id: Some(-1),
        discovery_medium: vec![2, 5],
        actions: vec![-3],
        identity_type: vec![1, -1],
        ..Default::default()
    };
    let bytes = device.encode_to_vec();
    assert_eq!(decode::<pb::PresenceDevice>(&bytes), Some(device));

    // A 64-bit number keeps its high bits.
    let mut number = vec![0x52, 10];
    number.extend_from_slice(&[0xff; 9]);
    number.push(1);
    assert_eq!(
        decode::<pb::PresenceDevice>(&number),
        Some(pb::PresenceDevice { identity_type: vec![-1], ..Default::default() })
    );
    // One by one they are taken, too.
    assert_eq!(
        decode::<pb::PresenceDevice>(&[0x50, 0x80, 0x80, 0x80, 0x80, 0x20]),
        Some(pb::PresenceDevice { identity_type: vec![0x2_0000_0000], ..Default::default() })
    );
    // A packed run that breaks off is malformed.
    assert_eq!(decode::<pb::PresenceDevice>(&[0x52, 1, 0x80]), None);
}

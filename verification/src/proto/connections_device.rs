//! The devices that a connection request can name.

use vstd::prelude::*;

use crate::message;
use crate::message::{FieldWriter, Message, Part};
use crate::wire;
use crate::wire::{Field, FieldView};

verus! {

/// The kind of an endpoint.
#[derive(Clone, Copy, Debug, PartialEq, Eq, Hash, Structural)]
pub enum EndpointType {
    UnknownEndpoint,
    ConnectionsEndpoint,
    PresenceEndpoint,
}

impl EndpointType {
    /// The number that stands for the variant on the wire.
    pub open spec fn spec_value(self) -> i32 {
        match self {
            EndpointType::UnknownEndpoint => 0,
            EndpointType::ConnectionsEndpoint => 1,
            EndpointType::PresenceEndpoint => 2,
        }
    }

    /// The variant that a number stands for.
    pub open spec fn spec_from_i32(value: i32) -> Option<EndpointType> {
        match value {
            0 => Some(EndpointType::UnknownEndpoint),
            1 => Some(EndpointType::ConnectionsEndpoint),
            2 => Some(EndpointType::PresenceEndpoint),
            _ => None,
        }
    }

    #[verifier::when_used_as_spec(spec_value)]
    pub fn value(self) -> (r: i32)
        ensures
            r == self.spec_value(),
    {
        match self {
            EndpointType::UnknownEndpoint => 0,
            EndpointType::ConnectionsEndpoint => 1,
            EndpointType::PresenceEndpoint => 2,
        }
    }

    #[verifier::when_used_as_spec(spec_from_i32)]
    pub fn from_i32(value: i32) -> (r: Option<EndpointType>)
        ensures
            r == EndpointType::spec_from_i32(value),
    {
        match value {
            0 => Some(EndpointType::UnknownEndpoint),
            1 => Some(EndpointType::ConnectionsEndpoint),
            2 => Some(EndpointType::PresenceEndpoint),
            _ => None,
        }
    }

    /// A number stands for a variant if and only if it is the number of that variant.
    pub proof fn lemma_number(self, value: i32)
        ensures
            EndpointType::from_i32(value) == Some(self) <==> value == self.value(),
    {
    }
}

/// A device known from its connections.
#[derive(Debug, PartialEq, Eq)]
pub struct ConnectionsDevice {
    pub endpoint_id: Option<String>,
    pub endpoint_type: Option<i32>,
    pub connectivity_info_list: Option<Vec<u8>>,
    pub endpoint_info: Option<Vec<u8>>,
}

/// What [`ConnectionsDevice`] stands for.
pub struct ConnectionsDeviceView {
    pub endpoint_id: Option<Seq<char>>,
    pub endpoint_type: Option<i32>,
    pub connectivity_info_list: Option<Seq<u8>>,
    pub endpoint_info: Option<Seq<u8>>,
}

impl ConnectionsDeviceView {
    /// The message with nothing in it.
    pub open spec fn unset() -> ConnectionsDeviceView {
        ConnectionsDeviceView {
            endpoint_id: None,
            endpoint_type: None,
            connectivity_info_list: None,
            endpoint_info: None,
        }
    }
}

impl View for ConnectionsDevice {
    type V = ConnectionsDeviceView;

    open spec fn view(&self) -> ConnectionsDeviceView {
        ConnectionsDeviceView {
            endpoint_id: wire::opt_view(self.endpoint_id),
            endpoint_type: self.endpoint_type,
            connectivity_info_list: wire::opt_view(self.connectivity_info_list),
            endpoint_info: wire::opt_view(self.endpoint_info),
        }
    }
}

impl Default for ConnectionsDevice {
    fn default() -> (r: ConnectionsDevice)
        ensures
            r@ == ConnectionsDeviceView::unset(),
    {
        ConnectionsDevice {
            endpoint_id: None,
            endpoint_type: None,
            connectivity_info_list: None,
            endpoint_info: None,
        }
    }
}

impl Clone for ConnectionsDevice {
    fn clone(&self) -> (r: ConnectionsDevice)
        ensures
            r@ == self@,
    {
        self.copy()
    }
}

impl Message for ConnectionsDevice {
    open spec fn depth() -> nat {
        0
    }

    open spec fn parts(v: ConnectionsDeviceView) -> Seq<Part> {
        seq![
            (1, message::string_values(v.endpoint_id)),
            (2, message::int32_values(v.endpoint_type)),
            (3, message::bytes_values(v.connectivity_info_list)),
            (4, message::bytes_values(v.endpoint_info)),
        ]
    }

    open spec fn from_fields(fields: Seq<FieldView>, limit: nat) -> Option<ConnectionsDeviceView> {
        let endpoint_id = message::string_of(message::values_of(fields, 1));
        let endpoint_type = message::int32_of(message::values_of(fields, 2));
        let connectivity_info_list = message::bytes_of(message::values_of(fields, 3));
        let endpoint_info = message::bytes_of(message::values_of(fields, 4));
        if endpoint_id is None
            || endpoint_type is None
            || connectivity_info_list is None
            || endpoint_info is None {
            None
        } else {
            Some(
                ConnectionsDeviceView {
                    endpoint_id: endpoint_id->0,
                    endpoint_type: endpoint_type->0,
                    connectivity_info_list: connectivity_info_list->0,
                    endpoint_info: endpoint_info->0,
                },
            )
        }
    }

    proof fn lemma_round_trip(v: ConnectionsDeviceView, limit: nat) {
        broadcast use message::group_round_trip;

        let parts = Self::parts(v);
        let fields = message::all_fields(parts);
        message::lemma_part(parts, 0);
        message::lemma_part(parts, 1);
        message::lemma_part(parts, 2);
        message::lemma_part(parts, 3);
    }

    fn encode_to_vec(&self) -> Vec<u8> {
        let mut out = FieldWriter::new();
        out.put_string(1, &self.endpoint_id);
        out.put_int32(2, self.endpoint_type);
        out.put_bytes(3, &self.connectivity_info_list);
        out.put_bytes(4, &self.endpoint_info);
        assert(out@ =~= Self::parts(self@));
        out.finish()
    }

    fn copy(&self) -> ConnectionsDevice {
        ConnectionsDevice {
            endpoint_id: message::copy_string(&self.endpoint_id),
            endpoint_type: self.endpoint_type,
            connectivity_info_list: message::copy_bytes(&self.connectivity_info_list),
            endpoint_info: message::copy_bytes(&self.endpoint_info),
        }
    }

    fn read(fields: &[Field], limit: u32) -> Option<ConnectionsDevice> {
        let endpoint_id = message::read_string(fields, 1)?;
        let endpoint_type = message::read_int32(fields, 2)?;
        let connectivity_info_list = message::read_bytes(fields, 3)?;
        let endpoint_info = message::read_bytes(fields, 4)?;
        Some(
            ConnectionsDevice {
                endpoint_id,
                endpoint_type,
                connectivity_info_list,
                endpoint_info,
            },
        )
    }
}

/// A device known from its presence.
#[derive(Debug, PartialEq, Eq)]
pub struct PresenceDevice {
    pub endpoint_id: Option<String>,
    pub endpoint_type: Option<i32>,
    pub connectivity_info_list: Option<Vec<u8>>,
    pub device_id: Option<i64>,
    pub device_name: Option<String>,
    pub device_type: Option<i32>,
    pub device_image_url: Option<String>,
    pub discovery_medium: Vec<i32>,
    pub actions: Vec<i32>,
    pub identity_type: Vec<i64>,
}

/// What [`PresenceDevice`] stands for.
pub struct PresenceDeviceView {
    pub endpoint_id: Option<Seq<char>>,
    pub endpoint_type: Option<i32>,
    pub connectivity_info_list: Option<Seq<u8>>,
    pub device_id: Option<i64>,
    pub device_name: Option<Seq<char>>,
    pub device_type: Option<i32>,
    pub device_image_url: Option<Seq<char>>,
    pub discovery_medium: Seq<i32>,
    pub actions: Seq<i32>,
    pub identity_type: Seq<i64>,
}

impl PresenceDeviceView {
    /// The message with nothing in it.
    pub open spec fn unset() -> PresenceDeviceView {
        PresenceDeviceView {
            endpoint_id: None,
            endpoint_type: None,
            connectivity_info_list: None,
            device_id: None,
            device_name: None,
            device_type: None,
            device_image_url: None,
            discovery_medium: Seq::empty(),
            actions: Seq::empty(),
            identity_type: Seq::empty(),
        }
    }
}

impl View for PresenceDevice {
    type V = PresenceDeviceView;

    open spec fn view(&self) -> PresenceDeviceView {
        PresenceDeviceView {
            endpoint_id: wire::opt_view(self.endpoint_id),
            endpoint_type: self.endpoint_type,
            connectivity_info_list: wire::opt_view(self.connectivity_info_list),
            device_id: self.device_id,
            device_name: wire::opt_view(self.device_name),
            device_type: self.device_type,
            device_image_url: wire::opt_view(self.device_image_url),
            discovery_medium: self.discovery_medium@,
            actions: self.actions@,
            identity_type: self.identity_type@,
        }
    }
}

impl Default for PresenceDevice {
    fn default() -> (r: PresenceDevice)
        ensures
            r@ == PresenceDeviceView::unset(),
    {
        PresenceDevice {
            endpoint_id: None,
            endpoint_type: None,
            connectivity_info_list: None,
            device_id: None,
            device_name: None,
            device_type: None,
            device_image_url: None,
            discovery_medium: Vec::new(),
            actions: Vec::new(),
            identity_type: Vec::new(),
        }
    }
}

impl Clone for PresenceDevice {
    fn clone(&self) -> (r: PresenceDevice)
        ensures
            r@ == self@,
    {
        self.copy()
    }
}

impl Message for PresenceDevice {
    open spec fn depth() -> nat {
        0
    }

    open spec fn parts(v: PresenceDeviceView) -> Seq<Part> {
        seq![
            (1, message::string_values(v.endpoint_id)),
            (2, message::int32_values(v.endpoint_type)),
            (3, message::bytes_values(v.connectivity_info_list)),
            (4, message::int64_values(v.device_id)),
            (5, message::string_values(v.device_name)),
            (6, message::int32_values(v.device_type)),
            (7, message::string_values(v.device_image_url)),
            (8, message::packed_values(v.discovery_medium)),
            (9, message::packed_values(v.actions)),
            (10, message::packed_longs_values(v.identity_type)),
        ]
    }

    open spec fn from_fields(fields: Seq<FieldView>, limit: nat) -> Option<PresenceDeviceView> {
        let endpoint_id = message::string_of(message::values_of(fields, 1));
        let endpoint_type = message::int32_of(message::values_of(fields, 2));
        let connectivity_info_list = message::bytes_of(message::values_of(fields, 3));
        let device_id = message::int64_of(message::values_of(fields, 4));
        let device_name = message::string_of(message::values_of(fields, 5));
        let device_type = message::int32_of(message::values_of(fields, 6));
        let device_image_url = message::string_of(message::values_of(fields, 7));
        let discovery_medium = message::ints_of(message::values_of(fields, 8));
        let actions = message::ints_of(message::values_of(fields, 9));
        let identity_type = message::longs_of(message::values_of(fields, 10));
        if endpoint_id is None
            || endpoint_type is None
            || connectivity_info_list is None
            || device_id is None
            || device_name is None
            || device_type is None
            || device_image_url is None
            || discovery_medium is None
            || actions is None
            || identity_type is None {
            None
        } else {
            Some(
                PresenceDeviceView {
                    endpoint_id: endpoint_id->0,
                    endpoint_type: endpoint_type->0,
                    connectivity_info_list: connectivity_info_list->0,
                    device_id: device_id->0,
                    device_name: device_name->0,
                    device_type: device_type->0,
                    device_image_url: device_image_url->0,
                    discovery_medium: discovery_medium->0,
                    actions: actions->0,
                    identity_type: identity_type->0,
                },
            )
        }
    }

    proof fn lemma_round_trip(v: PresenceDeviceView, limit: nat) {
        broadcast use message::group_round_trip;

        let parts = Self::parts(v);
        let fields = message::all_fields(parts);
        message::lemma_part(parts, 0);
        message::lemma_part(parts, 1);
        message::lemma_part(parts, 2);
        message::lemma_part(parts, 3);
        message::lemma_part(parts, 4);
        message::lemma_part(parts, 5);
        message::lemma_part(parts, 6);
        message::lemma_part(parts, 7);
        message::lemma_part(parts, 8);
        message::lemma_part(parts, 9);
    }

    fn encode_to_vec(&self) -> Vec<u8> {
        let mut out = FieldWriter::new();
        out.put_string(1, &self.endpoint_id);
        out.put_int32(2, self.endpoint_type);
        out.put_bytes(3, &self.connectivity_info_list);
        out.put_int64(4, self.device_id);
        out.put_string(5, &self.device_name);
        out.put_int32(6, self.device_type);
        out.put_string(7, &self.device_image_url);
        out.put_packed(8, &self.discovery_medium);
        out.put_packed(9, &self.actions);
        out.put_packed_longs(10, &self.identity_type);
        assert(out@ =~= Self::parts(self@));
        out.finish()
    }

    fn copy(&self) -> PresenceDevice {
        PresenceDevice {
            endpoint_id: message::copy_string(&self.endpoint_id),
            endpoint_type: self.endpoint_type,
            connectivity_info_list: message::copy_bytes(&self.connectivity_info_list),
            device_id: self.device_id,
            device_name: message::copy_string(&self.device_name),
            device_type: self.device_type,
            device_image_url: message::copy_string(&self.device_image_url),
            discovery_medium: message::copy_ints(&self.discovery_medium),
            actions: message::copy_ints(&self.actions),
            identity_type: message::copy_longs(&self.identity_type),
        }
    }

    fn read(fields: &[Field], limit: u32) -> Option<PresenceDevice> {
        let endpoint_id = message::read_string(fields, 1)?;
        let endpoint_type = message::read_int32(fields, 2)?;
        let connectivity_info_list = message::read_bytes(fields, 3)?;
        let device_id = message::read_int64(fields, 4)?;
        let device_name = message::read_string(fields, 5)?;
        let device_type = message::read_int32(fields, 6)?;
        let device_image_url = message::read_string(fields, 7)?;
        let discovery_medium = message::read_ints(fields, 8)?;
        let actions = message::read_ints(fields, 9)?;
        let identity_type = message::read_longs(fields, 10)?;
        Some(
            PresenceDevice {
                endpoint_id,
                endpoint_type,
                connectivity_info_list,
                device_id,
                device_name,
                device_type,
                device_image_url,
                discovery_medium,
                actions,
                identity_type,
            },
        )
    }
}

} // verus!

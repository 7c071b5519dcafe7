//! The frame that answers a connection request.

use vstd::prelude::*;

use crate::message;
use crate::message::{FieldWriter, Message, Part};
use crate::proto::location_hint::{LocationHint, LocationHintView};
use crate::proto::os_info::OsInfo;
use crate::wire;
use crate::wire::{Field, FieldView};

verus! {

/// Whether the request is accepted.
#[derive(Clone, Copy, Debug, PartialEq, Eq, Hash, Structural)]
pub enum ResponseStatus {
    UnknownResponseStatus,
    Accept,
    Reject,
}

impl ResponseStatus {
    /// The number that stands for the variant on the wire.
    pub open spec fn spec_value(self) -> i32 {
        match self {
            ResponseStatus::UnknownResponseStatus => 0,
            ResponseStatus::Accept => 1,
            ResponseStatus::Reject => 2,
        }
    }

    /// The variant that a number stands for.
    pub open spec fn spec_from_i32(value: i32) -> Option<ResponseStatus> {
        match value {
            0 => Some(ResponseStatus::UnknownResponseStatus),
            1 => Some(ResponseStatus::Accept),
            2 => Some(ResponseStatus::Reject),
            _ => None,
        }
    }

    #[verifier::when_used_as_spec(spec_value)]
    pub fn value(self) -> (r: i32)
        ensures
            r == self.spec_value(),
    {
        match self {
            ResponseStatus::UnknownResponseStatus => 0,
            ResponseStatus::Accept => 1,
            ResponseStatus::Reject => 2,
        }
    }

    #[verifier::when_used_as_spec(spec_from_i32)]
    pub fn from_i32(value: i32) -> (r: Option<ResponseStatus>)
        ensures
            r == ResponseStatus::spec_from_i32(value),
    {
        match value {
            0 => Some(ResponseStatus::UnknownResponseStatus),
            1 => Some(ResponseStatus::Accept),
            2 => Some(ResponseStatus::Reject),
            _ => None,
        }
    }

    /// A number stands for a variant if and only if it is the number of that variant.
    pub proof fn lemma_number(self, value: i32)
        ensures
            ResponseStatus::from_i32(value) == Some(self) <==> value == self.value(),
    {
    }
}

/// Answers a connection request. `status` is the older form of `response`.
#[derive(Debug, PartialEq, Eq)]
pub struct ConnectionResponseFrame {
    pub status: Option<i32>,
    pub handshake_data: Option<Vec<u8>>,
    pub response: Option<i32>,
    pub os_info: Option<OsInfo>,
    pub multiplex_socket_bitmask: Option<i32>,
    pub nearby_connections_version: Option<i32>,
    pub safe_to_disconnect_version: Option<i32>,
    pub location_hint: Option<LocationHint>,
    pub keep_alive_timeout_millis: Option<i32>,
}

/// What [`ConnectionResponseFrame`] stands for.
pub struct ConnectionResponseFrameView {
    pub status: Option<i32>,
    pub handshake_data: Option<Seq<u8>>,
    pub response: Option<i32>,
    pub os_info: Option<OsInfo>,
    pub multiplex_socket_bitmask: Option<i32>,
    pub nearby_connections_version: Option<i32>,
    pub safe_to_disconnect_version: Option<i32>,
    pub location_hint: Option<LocationHintView>,
    pub keep_alive_timeout_millis: Option<i32>,
}

impl ConnectionResponseFrameView {
    /// The message with nothing in it.
    pub open spec fn unset() -> ConnectionResponseFrameView {
        ConnectionResponseFrameView {
            status: None,
            handshake_data: None,
            response: None,
            os_info: None,
            multiplex_socket_bitmask: None,
            nearby_connections_version: None,
            safe_to_disconnect_version: None,
            location_hint: None,
            keep_alive_timeout_millis: None,
        }
    }
}

impl View for ConnectionResponseFrame {
    type V = ConnectionResponseFrameView;

    open spec fn view(&self) -> ConnectionResponseFrameView {
        ConnectionResponseFrameView {
            status: self.status,
            handshake_data: wire::opt_view(self.handshake_data),
            response: self.response,
            os_info: wire::opt_view(self.os_info),
            multiplex_socket_bitmask: self.multiplex_socket_bitmask,
            nearby_connections_version: self.nearby_connections_version,
            safe_to_disconnect_version: self.safe_to_disconnect_version,
            location_hint: wire::opt_view(self.location_hint),
            keep_alive_timeout_millis: self.keep_alive_timeout_millis,
        }
    }
}

impl Default for ConnectionResponseFrame {
    fn default() -> (r: ConnectionResponseFrame)
        ensures
            r@ == ConnectionResponseFrameView::unset(),
    {
        ConnectionResponseFrame {
            status: None,
            handshake_data: None,
            response: None,
            os_info: None,
            multiplex_socket_bitmask: None,
            nearby_connections_version: None,
            safe_to_disconnect_version: None,
            location_hint: None,
            keep_alive_timeout_millis: None,
        }
    }
}

impl Clone for ConnectionResponseFrame {
    fn clone(&self) -> (r: ConnectionResponseFrame)
        ensures
            r@ == self@,
    {
        self.copy()
    }
}

impl Message for ConnectionResponseFrame {
    open spec fn depth() -> nat {
        1
    }

    open spec fn parts(v: ConnectionResponseFrameView) -> Seq<Part> {
        seq![
            (1, message::int32_values(v.status)),
            (2, message::bytes_values(v.handshake_data)),
            (3, message::int32_values(v.response)),
            (4, message::message_values::<OsInfo>(v.os_info)),
            (5, message::int32_values(v.multiplex_socket_bitmask)),
            (6, message::int32_values(v.nearby_connections_version)),
            (7, message::int32_values(v.safe_to_disconnect_version)),
            (8, message::message_values::<LocationHint>(v.location_hint)),
            (9, message::int32_values(v.keep_alive_timeout_millis)),
        ]
    }

    open spec fn from_fields(fields: Seq<FieldView>, limit: nat) -> Option<ConnectionResponseFrameView> {
        let status = message::int32_of(message::values_of(fields, 1));
        let handshake_data = message::bytes_of(message::values_of(fields, 2));
        let response = message::int32_of(message::values_of(fields, 3));
        let os_info = message::message_of::<OsInfo>(message::values_of(fields, 4), limit);
        let multiplex_socket_bitmask = message::int32_of(message::values_of(fields, 5));
        let nearby_connections_version = message::int32_of(message::values_of(fields, 6));
        let safe_to_disconnect_version = message::int32_of(message::values_of(fields, 7));
        let location_hint = message::message_of::<LocationHint>(message::values_of(fields, 8), limit);
        let keep_alive_timeout_millis = message::int32_of(message::values_of(fields, 9));
        if status is None
            || handshake_data is None
            || response is None
            || os_info is None
            || multiplex_socket_bitmask is None
            || nearby_connections_version is None
            || safe_to_disconnect_version is None
            || location_hint is None
            || keep_alive_timeout_millis is None {
            None
        } else {
            Some(
                ConnectionResponseFrameView {
                    status: status->0,
                    handshake_data: handshake_data->0,
                    response: response->0,
                    os_info: os_info->0,
                    multiplex_socket_bitmask: multiplex_socket_bitmask->0,
                    nearby_connections_version: nearby_connections_version->0,
                    safe_to_disconnect_version: safe_to_disconnect_version->0,
                    location_hint: location_hint->0,
                    keep_alive_timeout_millis: keep_alive_timeout_millis->0,
                },
            )
        }
    }

    proof fn lemma_round_trip(v: ConnectionResponseFrameView, limit: nat) {
        broadcast use message::group_round_trip;

        let parts = Self::parts(v);
        let fields = message::all_fields(parts);
        message::lemma_part(parts, 0);
        message::lemma_part(parts, 1);
        message::lemma_part(parts, 2);
        message::lemma_part(parts, 3);
        message::lemma_part(parts, 4);
        message::lemma_part(parts, 5);
        message::lemma_part(parts, 6);
        message::lemma_part(parts, 7);
        message::lemma_part(parts, 8);
        message::lemma_message_round_trip::<OsInfo>(v.os_info, fields, 4, limit);
        message::lemma_message_round_trip::<LocationHint>(v.location_hint, fields, 8, limit);
    }

    fn encode_to_vec(&self) -> Vec<u8> {
        let mut out = FieldWriter::new();
        out.put_int32(1, self.status);
        out.put_bytes(2, &self.handshake_data);
        out.put_int32(3, self.response);
        out.put_message(4, &self.os_info);
        out.put_int32(5, self.multiplex_socket_bitmask);
        out.put_int32(6, self.nearby_connections_version);
        out.put_int32(7, self.safe_to_disconnect_version);
        out.put_message(8, &self.location_hint);
        out.put_int32(9, self.keep_alive_timeout_millis);
        assert(out@ =~= Self::parts(self@));
        out.finish()
    }

    fn copy(&self) -> ConnectionResponseFrame {
        ConnectionResponseFrame {
            status: self.status,
            handshake_data: message::copy_bytes(&self.handshake_data),
            response: self.response,
            os_info: message::copy_message(&self.os_info),
            multiplex_socket_bitmask: self.multiplex_socket_bitmask,
            nearby_connections_version: self.nearby_connections_version,
            safe_to_disconnect_version: self.safe_to_disconnect_version,
            location_hint: message::copy_message(&self.location_hint),
            keep_alive_timeout_millis: self.keep_alive_timeout_millis,
        }
    }

    fn read(fields: &[Field], limit: u32) -> Option<ConnectionResponseFrame> {
        let status = message::read_int32(fields, 1)?;
        let handshake_data = message::read_bytes(fields, 2)?;
        let response = message::read_int32(fields, 3)?;
        let os_info = message::read_message::<OsInfo>(fields, 4, limit)?;
        let multiplex_socket_bitmask = message::read_int32(fields, 5)?;
        let nearby_connections_version = message::read_int32(fields, 6)?;
        let safe_to_disconnect_version = message::read_int32(fields, 7)?;
        let location_hint = message::read_message::<LocationHint>(fields, 8, limit)?;
        let keep_alive_timeout_millis = message::read_int32(fields, 9)?;
        Some(
            ConnectionResponseFrame {
                status,
                handshake_data,
                response,
                os_info,
                multiplex_socket_bitmask,
                nearby_connections_version,
                safe_to_disconnect_version,
                location_hint,
                keep_alive_timeout_millis,
            },
        )
    }
}

} // verus!

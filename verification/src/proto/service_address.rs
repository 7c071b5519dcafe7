//! A network address.

use vstd::prelude::*;

use crate::message;
use crate::message::{FieldWriter, Message, Part};
use crate::wire;
use crate::wire::{Field, FieldView};

verus! {

/// A network address: 4 or 16 bytes, most significant first, and a port.
#[derive(Debug, PartialEq, Eq)]
pub struct ServiceAddress {
    pub ip_address: Option<Vec<u8>>,
    pub port: Option<i32>,
}

/// What [`ServiceAddress`] stands for.
pub struct ServiceAddressView {
    pub ip_address: Option<Seq<u8>>,
    pub port: Option<i32>,
}

impl ServiceAddressView {
    /// The message with nothing in it.
    pub open spec fn unset() -> ServiceAddressView {
        ServiceAddressView {
            ip_address: None,
            port: None,
        }
    }
}

impl View for ServiceAddress {
    type V = ServiceAddressView;

    open spec fn view(&self) -> ServiceAddressView {
        ServiceAddressView {
            ip_address: wire::opt_view(self.ip_address),
            port: self.port,
        }
    }
}

impl Default for ServiceAddress {
    fn default() -> (r: ServiceAddress)
        ensures
            r@ == ServiceAddressView::unset(),
    {
        ServiceAddress {
            ip_address: None,
            port: None,
        }
    }
}

impl Clone for ServiceAddress {
    fn clone(&self) -> (r: ServiceAddress)
        ensures
            r@ == self@,
    {
        self.copy()
    }
}

impl Message for ServiceAddress {
    open spec fn depth() -> nat {
        0
    }

    open spec fn parts(v: ServiceAddressView) -> Seq<Part> {
        seq![
            (1, message::bytes_values(v.ip_address)),
            (2, message::int32_values(v.port)),
        ]
    }

    open spec fn from_fields(fields: Seq<FieldView>, limit: nat) -> Option<ServiceAddressView> {
        let ip_address = message::bytes_of(message::values_of(fields, 1));
        let port = message::int32_of(message::values_of(fields, 2));
        if ip_address is None
            || port is None {
            None
        } else {
            Some(
                ServiceAddressView {
                    ip_address: ip_address->0,
                    port: port->0,
                },
            )
        }
    }

    proof fn lemma_round_trip(v: ServiceAddressView, limit: nat) {
        broadcast use message::group_round_trip;

        let parts = Self::parts(v);
        let fields = message::all_fields(parts);
        message::lemma_part(parts, 0);
        message::lemma_part(parts, 1);
    }

    fn encode_to_vec(&self) -> Vec<u8> {
        let mut out = FieldWriter::new();
        out.put_bytes(1, &self.ip_address);
        out.put_int32(2, self.port);
        assert(out@ =~= Self::parts(self@));
        out.finish()
    }

    fn copy(&self) -> ServiceAddress {
        ServiceAddress {
            ip_address: message::copy_bytes(&self.ip_address),
            port: self.port,
        }
    }

    fn read(fields: &[Field], limit: u32) -> Option<ServiceAddress> {
        let ip_address = message::read_bytes(fields, 1)?;
        let port = message::read_int32(fields, 2)?;
        Some(
            ServiceAddress {
                ip_address,
                port,
            },
        )
    }
}

} // verus!

//! The roles that a device can take on its mediums.

use vstd::prelude::*;

use crate::message;
use crate::message::{FieldWriter, Message, Part};
use crate::wire::{Field, FieldView};

verus! {

/// The roles that a device can take on its mediums.
#[derive(Clone, Copy, Debug, PartialEq, Eq)]
pub struct MediumRole {
    pub support_wifi_direct_group_owner: Option<bool>,
    pub support_wifi_direct_group_client: Option<bool>,
    pub support_wifi_hotspot_host: Option<bool>,
    pub support_wifi_hotspot_client: Option<bool>,
    pub support_wifi_aware_publisher: Option<bool>,
    pub support_wifi_aware_subscriber: Option<bool>,
    pub support_awdl_publisher: Option<bool>,
    pub support_awdl_subscriber: Option<bool>,
}

impl MediumRole {
    /// The message with nothing in it.
    pub open spec fn unset() -> MediumRole {
        MediumRole {
            support_wifi_direct_group_owner: None,
            support_wifi_direct_group_client: None,
            support_wifi_hotspot_host: None,
            support_wifi_hotspot_client: None,
            support_wifi_aware_publisher: None,
            support_wifi_aware_subscriber: None,
            support_awdl_publisher: None,
            support_awdl_subscriber: None,
        }
    }
}

impl View for MediumRole {
    type V = MediumRole;

    open spec fn view(&self) -> MediumRole {
        *self
    }
}

impl Default for MediumRole {
    fn default() -> (r: MediumRole)
        ensures
            r@ == MediumRole::unset(),
    {
        MediumRole {
            support_wifi_direct_group_owner: None,
            support_wifi_direct_group_client: None,
            support_wifi_hotspot_host: None,
            support_wifi_hotspot_client: None,
            support_wifi_aware_publisher: None,
            support_wifi_aware_subscriber: None,
            support_awdl_publisher: None,
            support_awdl_subscriber: None,
        }
    }
}

impl Message for MediumRole {
    open spec fn depth() -> nat {
        0
    }

    open spec fn parts(v: MediumRole) -> Seq<Part> {
        seq![
            (1, message::bool_values(v.support_wifi_direct_group_owner)),
            (2, message::bool_values(v.support_wifi_direct_group_client)),
            (3, message::bool_values(v.support_wifi_hotspot_host)),
            (4, message::bool_values(v.support_wifi_hotspot_client)),
            (5, message::bool_values(v.support_wifi_aware_publisher)),
            (6, message::bool_values(v.support_wifi_aware_subscriber)),
            (7, message::bool_values(v.support_awdl_publisher)),
            (8, message::bool_values(v.support_awdl_subscriber)),
        ]
    }

    open spec fn from_fields(fields: Seq<FieldView>, limit: nat) -> Option<MediumRole> {
        let support_wifi_direct_group_owner = message::bool_of(message::values_of(fields, 1));
        let support_wifi_direct_group_client = message::bool_of(message::values_of(fields, 2));
        let support_wifi_hotspot_host = message::bool_of(message::values_of(fields, 3));
        let support_wifi_hotspot_client = message::bool_of(message::values_of(fields, 4));
        let support_wifi_aware_publisher = message::bool_of(message::values_of(fields, 5));
        let support_wifi_aware_subscriber = message::bool_of(message::values_of(fields, 6));
        let support_awdl_publisher = message::bool_of(message::values_of(fields, 7));
        let support_awdl_subscriber = message::bool_of(message::values_of(fields, 8));
        if support_wifi_direct_group_owner is None
            || support_wifi_direct_group_client is None
            || support_wifi_hotspot_host is None
            || support_wifi_hotspot_client is None
            || support_wifi_aware_publisher is None
            || support_wifi_aware_subscriber is None
            || support_awdl_publisher is None
            || support_awdl_subscriber is None {
            None
        } else {
            Some(
                MediumRole {
                    support_wifi_direct_group_owner: support_wifi_direct_group_owner->0,
                    support_wifi_direct_group_client: support_wifi_direct_group_client->0,
                    support_wifi_hotspot_host: support_wifi_hotspot_host->0,
                    support_wifi_hotspot_client: support_wifi_hotspot_client->0,
                    support_wifi_aware_publisher: support_wifi_aware_publisher->0,
                    support_wifi_aware_subscriber: support_wifi_aware_subscriber->0,
                    support_awdl_publisher: support_awdl_publisher->0,
                    support_awdl_subscriber: support_awdl_subscriber->0,
                },
            )
        }
    }

    proof fn lemma_round_trip(v: MediumRole, limit: nat) {
        broadcast use message::group_round_trip;

        let parts = Self::parts(v);
        let fields = message::all_fields(parts);
        message::lemma_part(parts, 0);
        message::lemma_part(parts, 1);
        message::lemma_part(parts, 2);
        message::lemma_part(parts, 3);
        message::lemma_part(parts, 4);
        message::lemma_part(parts, 5);
        message::lemma_part(parts, 6);
        message::lemma_part(parts, 7);
    }

    fn encode_to_vec(&self) -> Vec<u8> {
        let mut out = FieldWriter::new();
        out.put_bool(1, self.support_wifi_direct_group_owner);
        out.put_bool(2, self.support_wifi_direct_group_client);
        out.put_bool(3, self.support_wifi_hotspot_host);
        out.put_bool(4, self.support_wifi_hotspot_client);
        out.put_bool(5, self.support_wifi_aware_publisher);
        out.put_bool(6, self.support_wifi_aware_subscriber);
        out.put_bool(7, self.support_awdl_publisher);
        out.put_bool(8, self.support_awdl_subscriber);
        assert(out@ =~= Self::parts(self@));
        out.finish()
    }

    fn copy(&self) -> MediumRole {
        *self
    }

    fn read(fields: &[Field], limit: u32) -> Option<MediumRole> {
        let support_wifi_direct_group_owner = message::read_bool(fields, 1)?;
        let support_wifi_direct_group_client = message::read_bool(fields, 2)?;
        let support_wifi_hotspot_host = message::read_bool(fields, 3)?;
        let support_wifi_hotspot_client = message::read_bool(fields, 4)?;
        let support_wifi_aware_publisher = message::read_bool(fields, 5)?;
        let support_wifi_aware_subscriber = message::read_bool(fields, 6)?;
        let support_awdl_publisher = message::read_bool(fields, 7)?;
        let support_awdl_subscriber = message::read_bool(fields, 8)?;
        Some(
            MediumRole {
                support_wifi_direct_group_owner,
                support_wifi_direct_group_client,
                support_wifi_hotspot_host,
                support_wifi_hotspot_client,
                support_wifi_aware_publisher,
                support_wifi_aware_subscriber,
                support_awdl_publisher,
                support_awdl_subscriber,
            },
        )
    }
}

} // verus!

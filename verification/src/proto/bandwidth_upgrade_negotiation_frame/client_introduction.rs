//! The small messages of the upgrade handshake.

use vstd::prelude::*;

use crate::message;
use crate::message::{FieldWriter, Message, Part};
use crate::wire;
use crate::wire::{Field, FieldView};

verus! {

/// Tells over a new channel which endpoint has connected.
#[derive(Debug, PartialEq, Eq)]
pub struct ClientIntroduction {
    pub endpoint_id: Option<String>,
    pub supports_disabling_encryption: Option<bool>,
    pub last_endpoint_id: Option<String>,
}

/// What [`ClientIntroduction`] stands for.
pub struct ClientIntroductionView {
    pub endpoint_id: Option<Seq<char>>,
    pub supports_disabling_encryption: Option<bool>,
    pub last_endpoint_id: Option<Seq<char>>,
}

impl ClientIntroductionView {
    /// The message with nothing in it.
    pub open spec fn unset() -> ClientIntroductionView {
        ClientIntroductionView {
            endpoint_id: None,
            supports_disabling_encryption: None,
            last_endpoint_id: None,
        }
    }
}

impl View for ClientIntroduction {
    type V = ClientIntroductionView;

    open spec fn view(&self) -> ClientIntroductionView {
        ClientIntroductionView {
            endpoint_id: wire::opt_view(self.endpoint_id),
            supports_disabling_encryption: self.supports_disabling_encryption,
            last_endpoint_id: wire::opt_view(self.last_endpoint_id),
        }
    }
}

impl Default for ClientIntroduction {
    fn default() -> (r: ClientIntroduction)
        ensures
            r@ == ClientIntroductionView::unset(),
    {
        ClientIntroduction {
            endpoint_id: None,
            supports_disabling_encryption: None,
            last_endpoint_id: None,
        }
    }
}

impl Clone for ClientIntroduction {
    fn clone(&self) -> (r: ClientIntroduction)
        ensures
            r@ == self@,
    {
        self.copy()
    }
}

impl Message for ClientIntroduction {
    open spec fn depth() -> nat {
        0
    }

    open spec fn parts(v: ClientIntroductionView) -> Seq<Part> {
        seq![
            (1, message::string_values(v.endpoint_id)),
            (2, message::bool_values(v.supports_disabling_encryption)),
            (3, message::string_values(v.last_endpoint_id)),
        ]
    }

    open spec fn from_fields(fields: Seq<FieldView>, limit: nat) -> Option<ClientIntroductionView> {
        let endpoint_id = message::string_of(message::values_of(fields, 1));
        let supports_disabling_encryption = message::bool_of(message::values_of(fields, 2));
        let last_endpoint_id = message::string_of(message::values_of(fields, 3));
        if endpoint_id is None
            || supports_disabling_encryption is None
            || last_endpoint_id is None {
            None
        } else {
            Some(
                ClientIntroductionView {
                    endpoint_id: endpoint_id->0,
                    supports_disabling_encryption: supports_disabling_encryption->0,
                    last_endpoint_id: last_endpoint_id->0,
                },
            )
        }
    }

    proof fn lemma_round_trip(v: ClientIntroductionView, limit: nat) {
        broadcast use message::group_round_trip;

        let parts = Self::parts(v);
        let fields = message::all_fields(parts);
        message::lemma_part(parts, 0);
        message::lemma_part(parts, 1);
        message::lemma_part(parts, 2);
    }

    fn encode_to_vec(&self) -> Vec<u8> {
        let mut out = FieldWriter::new();
        out.put_string(1, &self.endpoint_id);
        out.put_bool(2, self.supports_disabling_encryption);
        out.put_string(3, &self.last_endpoint_id);
        assert(out@ =~= Self::parts(self@));
        out.finish()
    }

    fn copy(&self) -> ClientIntroduction {
        ClientIntroduction {
            endpoint_id: message::copy_string(&self.endpoint_id),
            supports_disabling_encryption: self.supports_disabling_encryption,
            last_endpoint_id: message::copy_string(&self.last_endpoint_id),
        }
    }

    fn read(fields: &[Field], limit: u32) -> Option<ClientIntroduction> {
        let endpoint_id = message::read_string(fields, 1)?;
        let supports_disabling_encryption = message::read_bool(fields, 2)?;
        let last_endpoint_id = message::read_string(fields, 3)?;
        Some(
            ClientIntroduction {
                endpoint_id,
                supports_disabling_encryption,
                last_endpoint_id,
            },
        )
    }
}

/// Confirms an introduction.
#[derive(Clone, Copy, Debug, PartialEq, Eq)]
pub struct ClientIntroductionAck {}

impl ClientIntroductionAck {
    /// The message with nothing in it.
    pub open spec fn unset() -> ClientIntroductionAck {
        ClientIntroductionAck {}
    }
}

impl View for ClientIntroductionAck {
    type V = ClientIntroductionAck;

    open spec fn view(&self) -> ClientIntroductionAck {
        *self
    }
}

impl Default for ClientIntroductionAck {
    fn default() -> (r: ClientIntroductionAck)
        ensures
            r@ == ClientIntroductionAck::unset(),
    {
        ClientIntroductionAck {}
    }
}

impl Message for ClientIntroductionAck {
    open spec fn depth() -> nat {
        0
    }

    open spec fn parts(v: ClientIntroductionAck) -> Seq<Part> {
        Seq::empty()
    }

    open spec fn from_fields(fields: Seq<FieldView>, limit: nat) -> Option<ClientIntroductionAck> {
        Some(ClientIntroductionAck {})
    }

    proof fn lemma_round_trip(v: ClientIntroductionAck, limit: nat) {
    }

    fn encode_to_vec(&self) -> Vec<u8> {
        let out = FieldWriter::new();
        assert(out@ =~= Self::parts(self@));
        out.finish()
    }

    fn copy(&self) -> ClientIntroductionAck {
        *self
    }

    fn read(fields: &[Field], limit: u32) -> Option<ClientIntroductionAck> {
        Some(ClientIntroductionAck {})
    }
}

/// What goes with the last step of the handshake.
#[derive(Clone, Copy, Debug, PartialEq, Eq)]
pub struct SafeToClosePriorChannel {
    pub sta_frequency: Option<i32>,
}

impl SafeToClosePriorChannel {
    /// The message with nothing in it.
    pub open spec fn unset() -> SafeToClosePriorChannel {
        SafeToClosePriorChannel {
            sta_frequency: None,
        }
    }
}

impl View for SafeToClosePriorChannel {
    type V = SafeToClosePriorChannel;

    open spec fn view(&self) -> SafeToClosePriorChannel {
        *self
    }
}

impl Default for SafeToClosePriorChannel {
    fn default() -> (r: SafeToClosePriorChannel)
        ensures
            r@ == SafeToClosePriorChannel::unset(),
    {
        SafeToClosePriorChannel {
            sta_frequency: None,
        }
    }
}

impl Message for SafeToClosePriorChannel {
    open spec fn depth() -> nat {
        0
    }

    open spec fn parts(v: SafeToClosePriorChannel) -> Seq<Part> {
        seq![
            (1, message::int32_values(v.sta_frequency)),
        ]
    }

    open spec fn from_fields(fields: Seq<FieldView>, limit: nat) -> Option<SafeToClosePriorChannel> {
        let sta_frequency = message::int32_of(message::values_of(fields, 1));
        if sta_frequency is None {
            None
        } else {
            Some(
                SafeToClosePriorChannel {
                    sta_frequency: sta_frequency->0,
                },
            )
        }
    }

    proof fn lemma_round_trip(v: SafeToClosePriorChannel, limit: nat) {
        broadcast use message::group_round_trip;

        let parts = Self::parts(v);
        let fields = message::all_fields(parts);
        message::lemma_part(parts, 0);
    }

    fn encode_to_vec(&self) -> Vec<u8> {
        let mut out = FieldWriter::new();
        out.put_int32(1, self.sta_frequency);
        assert(out@ =~= Self::parts(self@));
        out.finish()
    }

    fn copy(&self) -> SafeToClosePriorChannel {
        *self
    }

    fn read(fields: &[Field], limit: u32) -> Option<SafeToClosePriorChannel> {
        let sta_frequency = message::read_int32(fields, 1)?;
        Some(
            SafeToClosePriorChannel {
                sta_frequency,
            },
        )
    }
}

} // verus!

//! The frames of an authentication.

use vstd::prelude::*;

use crate::message;
use crate::message::{FieldWriter, Message, Part};
use crate::wire;
use crate::wire::{Field, FieldView};

verus! {

/// One message of an authentication.
#[derive(Debug, PartialEq, Eq)]
pub struct AuthenticationMessageFrame {
    pub auth_message: Option<Vec<u8>>,
}

/// What [`AuthenticationMessageFrame`] stands for.
pub struct AuthenticationMessageFrameView {
    pub auth_message: Option<Seq<u8>>,
}

impl AuthenticationMessageFrameView {
    /// The message with nothing in it.
    pub open spec fn unset() -> AuthenticationMessageFrameView {
        AuthenticationMessageFrameView {
            auth_message: None,
        }
    }
}

impl View for AuthenticationMessageFrame {
    type V = AuthenticationMessageFrameView;

    open spec fn view(&self) -> AuthenticationMessageFrameView {
        AuthenticationMessageFrameView {
            auth_message: wire::opt_view(self.auth_message),
        }
    }
}

impl Default for AuthenticationMessageFrame {
    fn default() -> (r: AuthenticationMessageFrame)
        ensures
            r@ == AuthenticationMessageFrameView::unset(),
    {
        AuthenticationMessageFrame {
            auth_message: None,
        }
    }
}

impl Clone for AuthenticationMessageFrame {
    fn clone(&self) -> (r: AuthenticationMessageFrame)
        ensures
            r@ == self@,
    {
        self.copy()
    }
}

impl Message for AuthenticationMessageFrame {
    open spec fn depth() -> nat {
        0
    }

    open spec fn parts(v: AuthenticationMessageFrameView) -> Seq<Part> {
        seq![
            (1, message::bytes_values(v.auth_message)),
        ]
    }

    open spec fn from_fields(fields: Seq<FieldView>, limit: nat) -> Option<AuthenticationMessageFrameView> {
        let auth_message = message::bytes_of(message::values_of(fields, 1));
        if auth_message is None {
            None
        } else {
            Some(
                AuthenticationMessageFrameView {
                    auth_message: auth_message->0,
                },
            )
        }
    }

    proof fn lemma_round_trip(v: AuthenticationMessageFrameView, limit: nat) {
        broadcast use message::group_round_trip;

        let parts = Self::parts(v);
        let fields = message::all_fields(parts);
        message::lemma_part(parts, 0);
    }

    fn encode_to_vec(&self) -> Vec<u8> {
        let mut out = FieldWriter::new();
        out.put_bytes(1, &self.auth_message);
        assert(out@ =~= Self::parts(self@));
        out.finish()
    }

    fn copy(&self) -> AuthenticationMessageFrame {
        AuthenticationMessageFrame {
            auth_message: message::copy_bytes(&self.auth_message),
        }
    }

    fn read(fields: &[Field], limit: u32) -> Option<AuthenticationMessageFrame> {
        let auth_message = message::read_bytes(fields, 1)?;
        Some(
            AuthenticationMessageFrame {
                auth_message,
            },
        )
    }
}

/// How an authentication ended.
#[derive(Clone, Copy, Debug, PartialEq, Eq)]
pub struct AuthenticationResultFrame {
    pub result: Option<i32>,
}

impl AuthenticationResultFrame {
    /// The message with nothing in it.
    pub open spec fn unset() -> AuthenticationResultFrame {
        AuthenticationResultFrame {
            result: None,
        }
    }
}

impl View for AuthenticationResultFrame {
    type V = AuthenticationResultFrame;

    open spec fn view(&self) -> AuthenticationResultFrame {
        *self
    }
}

impl Default for AuthenticationResultFrame {
    fn default() -> (r: AuthenticationResultFrame)
        ensures
            r@ == AuthenticationResultFrame::unset(),
    {
        AuthenticationResultFrame {
            result: None,
        }
    }
}

impl Message for AuthenticationResultFrame {
    open spec fn depth() -> nat {
        0
    }

    open spec fn parts(v: AuthenticationResultFrame) -> Seq<Part> {
        seq![
            (1, message::int32_values(v.result)),
        ]
    }

    open spec fn from_fields(fields: Seq<FieldView>, limit: nat) -> Option<AuthenticationResultFrame> {
        let result = message::int32_of(message::values_of(fields, 1));
        if result is None {
            None
        } else {
            Some(
                AuthenticationResultFrame {
                    result: result->0,
                },
            )
        }
    }

    proof fn lemma_round_trip(v: AuthenticationResultFrame, limit: nat) {
        broadcast use message::group_round_trip;

        let parts = Self::parts(v);
        let fields = message::all_fields(parts);
        message::lemma_part(parts, 0);
    }

    fn encode_to_vec(&self) -> Vec<u8> {
        let mut out = FieldWriter::new();
        out.put_int32(1, self.result);
        assert(out@ =~= Self::parts(self@));
        out.finish()
    }

    fn copy(&self) -> AuthenticationResultFrame {
        *self
    }

    fn read(fields: &[Field], limit: u32) -> Option<AuthenticationResultFrame> {
        let result = message::read_int32(fields, 1)?;
        Some(
            AuthenticationResultFrame {
                result,
            },
        )
    }
}

} // verus!

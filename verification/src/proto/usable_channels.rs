//! The channels that a device can use.

use vstd::prelude::*;

use crate::message;
use crate::message::{FieldWriter, Message, Part};
use crate::wire;
use crate::wire::{Field, FieldView};

verus! {

/// The channels that a device has.
#[derive(Debug, PartialEq, Eq)]
pub struct AvailableChannels {
    pub channels: Vec<i32>,
}

/// What [`AvailableChannels`] stands for.
pub struct AvailableChannelsView {
    pub channels: Seq<i32>,
}

impl AvailableChannelsView {
    /// The message with nothing in it.
    pub open spec fn unset() -> AvailableChannelsView {
        AvailableChannelsView {
            channels: Seq::empty(),
        }
    }
}

impl View for AvailableChannels {
    type V = AvailableChannelsView;

    open spec fn view(&self) -> AvailableChannelsView {
        AvailableChannelsView {
            channels: self.channels@,
        }
    }
}

impl Default for AvailableChannels {
    fn default() -> (r: AvailableChannels)
        ensures
            r@ == AvailableChannelsView::unset(),
    {
        AvailableChannels {
            channels: Vec::new(),
        }
    }
}

impl Clone for AvailableChannels {
    fn clone(&self) -> (r: AvailableChannels)
        ensures
            r@ == self@,
    {
        self.copy()
    }
}

impl Message for AvailableChannels {
    open spec fn depth() -> nat {
        0
    }

    open spec fn parts(v: AvailableChannelsView) -> Seq<Part> {
        seq![
            (1, message::packed_values(v.channels)),
        ]
    }

    open spec fn from_fields(fields: Seq<FieldView>, limit: nat) -> Option<AvailableChannelsView> {
        let channels = message::ints_of(message::values_of(fields, 1));
        if channels is None {
            None
        } else {
            Some(
                AvailableChannelsView {
                    channels: channels->0,
                },
            )
        }
    }

    proof fn lemma_round_trip(v: AvailableChannelsView, limit: nat) {
        broadcast use message::group_round_trip;

        let parts = Self::parts(v);
        let fields = message::all_fields(parts);
        message::lemma_part(parts, 0);
    }

    fn encode_to_vec(&self) -> Vec<u8> {
        let mut out = FieldWriter::new();
        out.put_packed(1, &self.channels);
        assert(out@ =~= Self::parts(self@));
        out.finish()
    }

    fn copy(&self) -> AvailableChannels {
        AvailableChannels {
            channels: message::copy_ints(&self.channels),
        }
    }

    fn read(fields: &[Field], limit: u32) -> Option<AvailableChannels> {
        let channels = message::read_ints(fields, 1)?;
        Some(
            AvailableChannels {
                channels,
            },
        )
    }
}

/// The channels on which a device can be the client of a Wi-Fi Direct group.
#[derive(Debug, PartialEq, Eq)]
pub struct WifiDirectCliUsableChannels {
    pub channels: Vec<i32>,
}

/// What [`WifiDirectCliUsableChannels`] stands for.
pub struct WifiDirectCliUsableChannelsView {
    pub channels: Seq<i32>,
}

impl WifiDirectCliUsableChannelsView {
    /// The message with nothing in it.
    pub open spec fn unset() -> WifiDirectCliUsableChannelsView {
        WifiDirectCliUsableChannelsView {
            channels: Seq::empty(),
        }
    }
}

impl View for WifiDirectCliUsableChannels {
    type V = WifiDirectCliUsableChannelsView;

    open spec fn view(&self) -> WifiDirectCliUsableChannelsView {
        WifiDirectCliUsableChannelsView {
            channels: self.channels@,
        }
    }
}

impl Default for WifiDirectCliUsableChannels {
    fn default() -> (r: WifiDirectCliUsableChannels)
        ensures
            r@ == WifiDirectCliUsableChannelsView::unset(),
    {
        WifiDirectCliUsableChannels {
            channels: Vec::new(),
        }
    }
}

impl Clone for WifiDirectCliUsableChannels {
    fn clone(&self) -> (r: WifiDirectCliUsableChannels)
        ensures
            r@ == self@,
    {
        self.copy()
    }
}

impl Message for WifiDirectCliUsableChannels {
    open spec fn depth() -> nat {
        0
    }

    open spec fn parts(v: WifiDirectCliUsableChannelsView) -> Seq<Part> {
        seq![
            (1, message::packed_values(v.channels)),
        ]
    }

    open spec fn from_fields(fields: Seq<FieldView>, limit: nat) -> Option<WifiDirectCliUsableChannelsView> {
        let channels = message::ints_of(message::values_of(fields, 1));
        if channels is None {
            None
        } else {
            Some(
                WifiDirectCliUsableChannelsView {
                    channels: channels->0,
                },
            )
        }
    }

    proof fn lemma_round_trip(v: WifiDirectCliUsableChannelsView, limit: nat) {
        broadcast use message::group_round_trip;

        let parts = Self::parts(v);
        let fields = message::all_fields(parts);
        message::lemma_part(parts, 0);
    }

    fn encode_to_vec(&self) -> Vec<u8> {
        let mut out = FieldWriter::new();
        out.put_packed(1, &self.channels);
        assert(out@ =~= Self::parts(self@));
        out.finish()
    }

    fn copy(&self) -> WifiDirectCliUsableChannels {
        WifiDirectCliUsableChannels {
            channels: message::copy_ints(&self.channels),
        }
    }

    fn read(fields: &[Field], limit: u32) -> Option<WifiDirectCliUsableChannels> {
        let channels = message::read_ints(fields, 1)?;
        Some(
            WifiDirectCliUsableChannels {
                channels,
            },
        )
    }
}

/// The channels on which a device can use the local network.
#[derive(Debug, PartialEq, Eq)]
pub struct WifiLanUsableChannels {
    pub channels: Vec<i32>,
}

/// What [`WifiLanUsableChannels`] stands for.
pub struct WifiLanUsableChannelsView {
    pub channels: Seq<i32>,
}

impl WifiLanUsableChannelsView {
    /// The message with nothing in it.
    pub open spec fn unset() -> WifiLanUsableChannelsView {
        WifiLanUsableChannelsView {
            channels: Seq::empty(),
        }
    }
}

impl View for WifiLanUsableChannels {
    type V = WifiLanUsableChannelsView;

    open spec fn view(&self) -> WifiLanUsableChannelsView {
        WifiLanUsableChannelsView {
            channels: self.channels@,
        }
    }
}

impl Default for WifiLanUsableChannels {
    fn default() -> (r: WifiLanUsableChannels)
        ensures
            r@ == WifiLanUsableChannelsView::unset(),
    {
        WifiLanUsableChannels {
            channels: Vec::new(),
        }
    }
}

impl Clone for WifiLanUsableChannels {
    fn clone(&self) -> (r: WifiLanUsableChannels)
        ensures
            r@ == self@,
    {
        self.copy()
    }
}

impl Message for WifiLanUsableChannels {
    open spec fn depth() -> nat {
        0
    }

    open spec fn parts(v: WifiLanUsableChannelsView) -> Seq<Part> {
        seq![
            (1, message::packed_values(v.channels)),
        ]
    }

    open spec fn from_fields(fields: Seq<FieldView>, limit: nat) -> Option<WifiLanUsableChannelsView> {
        let channels = message::ints_of(message::values_of(fields, 1));
        if channels is None {
            None
        } else {
            Some(
                WifiLanUsableChannelsView {
                    channels: channels->0,
                },
            )
        }
    }

    proof fn lemma_round_trip(v: WifiLanUsableChannelsView, limit: nat) {
        broadcast use message::group_round_trip;

        let parts = Self::parts(v);
        let fields = message::all_fields(parts);
        message::lemma_part(parts, 0);
    }

    fn encode_to_vec(&self) -> Vec<u8> {
        let mut out = FieldWriter::new();
        out.put_packed(1, &self.channels);
        assert(out@ =~= Self::parts(self@));
        out.finish()
    }

    fn copy(&self) -> WifiLanUsableChannels {
        WifiLanUsableChannels {
            channels: message::copy_ints(&self.channels),
        }
    }

    fn read(fields: &[Field], limit: u32) -> Option<WifiLanUsableChannels> {
        let channels = message::read_ints(fields, 1)?;
        Some(
            WifiLanUsableChannels {
                channels,
            },
        )
    }
}

/// The channels on which a device can use Wi-Fi Aware.
#[derive(Debug, PartialEq, Eq)]
pub struct WifiAwareUsableChannels {
    pub channels: Vec<i32>,
}

/// What [`WifiAwareUsableChannels`] stands for.
pub struct WifiAwareUsableChannelsView {
    pub channels: Seq<i32>,
}

impl WifiAwareUsableChannelsView {
    /// The message with nothing in it.
    pub open spec fn unset() -> WifiAwareUsableChannelsView {
        WifiAwareUsableChannelsView {
            channels: Seq::empty(),
        }
    }
}

impl View for WifiAwareUsableChannels {
    type V = WifiAwareUsableChannelsView;

    open spec fn view(&self) -> WifiAwareUsableChannelsView {
        WifiAwareUsableChannelsView {
            channels: self.channels@,
        }
    }
}

impl Default for WifiAwareUsableChannels {
    fn default() -> (r: WifiAwareUsableChannels)
        ensures
            r@ == WifiAwareUsableChannelsView::unset(),
    {
        WifiAwareUsableChannels {
            channels: Vec::new(),
        }
    }
}

impl Clone for WifiAwareUsableChannels {
    fn clone(&self) -> (r: WifiAwareUsableChannels)
        ensures
            r@ == self@,
    {
        self.copy()
    }
}

impl Message for WifiAwareUsableChannels {
    open spec fn depth() -> nat {
        0
    }

    open spec fn parts(v: WifiAwareUsableChannelsView) -> Seq<Part> {
        seq![
            (1, message::packed_values(v.channels)),
        ]
    }

    open spec fn from_fields(fields: Seq<FieldView>, limit: nat) -> Option<WifiAwareUsableChannelsView> {
        let channels = message::ints_of(message::values_of(fields, 1));
        if channels is None {
            None
        } else {
            Some(
                WifiAwareUsableChannelsView {
                    channels: channels->0,
                },
            )
        }
    }

    proof fn lemma_round_trip(v: WifiAwareUsableChannelsView, limit: nat) {
        broadcast use message::group_round_trip;

        let parts = Self::parts(v);
        let fields = message::all_fields(parts);
        message::lemma_part(parts, 0);
    }

    fn encode_to_vec(&self) -> Vec<u8> {
        let mut out = FieldWriter::new();
        out.put_packed(1, &self.channels);
        assert(out@ =~= Self::parts(self@));
        out.finish()
    }

    fn copy(&self) -> WifiAwareUsableChannels {
        WifiAwareUsableChannels {
            channels: message::copy_ints(&self.channels),
        }
    }

    fn read(fields: &[Field], limit: u32) -> Option<WifiAwareUsableChannels> {
        let channels = message::read_ints(fields, 1)?;
        Some(
            WifiAwareUsableChannels {
                channels,
            },
        )
    }
}

/// The channels on which a device can join a hotspot.
#[derive(Debug, PartialEq, Eq)]
pub struct WifiHotspotStaUsableChannels {
    pub channels: Vec<i32>,
}

/// What [`WifiHotspotStaUsableChannels`] stands for.
pub struct WifiHotspotStaUsableChannelsView {
    pub channels: Seq<i32>,
}

impl WifiHotspotStaUsableChannelsView {
    /// The message with nothing in it.
    pub open spec fn unset() -> WifiHotspotStaUsableChannelsView {
        WifiHotspotStaUsableChannelsView {
            channels: Seq::empty(),
        }
    }
}

impl View for WifiHotspotStaUsableChannels {
    type V = WifiHotspotStaUsableChannelsView;

    open spec fn view(&self) -> WifiHotspotStaUsableChannelsView {
        WifiHotspotStaUsableChannelsView {
            channels: self.channels@,
        }
    }
}

impl Default for WifiHotspotStaUsableChannels {
    fn default() -> (r: WifiHotspotStaUsableChannels)
        ensures
            r@ == WifiHotspotStaUsableChannelsView::unset(),
    {
        WifiHotspotStaUsableChannels {
            channels: Vec::new(),
        }
    }
}

impl Clone for WifiHotspotStaUsableChannels {
    fn clone(&self) -> (r: WifiHotspotStaUsableChannels)
        ensures
            r@ == self@,
    {
        self.copy()
    }
}

impl Message for WifiHotspotStaUsableChannels {
    open spec fn depth() -> nat {
        0
    }

    open spec fn parts(v: WifiHotspotStaUsableChannelsView) -> Seq<Part> {
        seq![
            (1, message::packed_values(v.channels)),
        ]
    }

    open spec fn from_fields(fields: Seq<FieldView>, limit: nat) -> Option<WifiHotspotStaUsableChannelsView> {
        let channels = message::ints_of(message::values_of(fields, 1));
        if channels is None {
            None
        } else {
            Some(
                WifiHotspotStaUsableChannelsView {
                    channels: channels->0,
                },
            )
        }
    }

    proof fn lemma_round_trip(v: WifiHotspotStaUsableChannelsView, limit: nat) {
        broadcast use message::group_round_trip;

        let parts = Self::parts(v);
        let fields = message::all_fields(parts);
        message::lemma_part(parts, 0);
    }

    fn encode_to_vec(&self) -> Vec<u8> {
        let mut out = FieldWriter::new();
        out.put_packed(1, &self.channels);
        assert(out@ =~= Self::parts(self@));
        out.finish()
    }

    fn copy(&self) -> WifiHotspotStaUsableChannels {
        WifiHotspotStaUsableChannels {
            channels: message::copy_ints(&self.channels),
        }
    }

    fn read(fields: &[Field], limit: u32) -> Option<WifiHotspotStaUsableChannels> {
        let channels = message::read_ints(fields, 1)?;
        Some(
            WifiHotspotStaUsableChannels {
                channels,
            },
        )
    }
}

} // verus!

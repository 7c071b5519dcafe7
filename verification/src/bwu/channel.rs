//! Channels: the links over which the frames of an endpoint travel.

use vstd::prelude::*;

use crate::frames;
use crate::frames::Exception;
use crate::mediums::Medium;

verus! {

/// Why a channel was closed.
#[derive(Clone, Copy, Debug, PartialEq, Eq, Structural)]
pub enum DisconnectionReason {
    UnknownDisconnectionReason,
    LocalDisconnection,
    RemoteDisconnection,
    IoError,
    Upgraded,
    Shutdown,
    Unfinished,
    PrevChannelDisconnectionInReconnect,
    AuthenticationFailure,
}

/// How safely an endpoint was disconnected. It is handed through and decides nothing.
#[derive(Clone, Copy, Debug, PartialEq, Eq, Structural)]
pub enum SafeDisconnectionResult {
    SafeDisconnection,
    UnsafeDisconnection,
}

/// One use of a channel, and how it ended.
pub enum ChannelEvent {
    Read(Result<Seq<u8>, Exception>),
    Write(Seq<u8>, Exception),
    Close,
    CloseWithReason(DisconnectionReason),
    SetLocalEndpointId(Seq<char>),
    Pause,
    Resume,
    EnableEncryption,
    DisableEncryption,
}

/// What is known beforehand of what a channel gives.
pub struct Replies {
    /// What every read gives, if that is known.
    pub read: Option<Result<Seq<u8>, Exception>>,
    /// What every write gives, if that is known.
    pub write: Option<Exception>,
}

/// What is known of a channel: what it was made with, what it will give, and how it was
/// used since.
pub struct ChannelView {
    pub medium: Medium,
    pub service_id: Seq<char>,
    pub name: Seq<char>,
    pub replies: Replies,
    pub history: Seq<ChannelEvent>,
}

impl ChannelView {
    /// What a read gives: what is known of it, or else `r`.
    pub open spec fn reads(self, r: Result<Seq<u8>, Exception>) -> Result<Seq<u8>, Exception> {
        match self.replies.read {
            Some(known) => known,
            None => r,
        }
    }

    /// What a write gives: what is known of it, or else `r`.
    pub open spec fn writes(self, r: Exception) -> Exception {
        match self.replies.write {
            Some(known) => known,
            None => r,
        }
    }

    /// The channel with reads that give `r`.
    pub open spec fn with_read(self, r: Result<Seq<u8>, Exception>) -> ChannelView {
        ChannelView { replies: Replies { read: Some(r), ..self.replies }, ..self }
    }

    /// The channel with writes that give `r`.
    pub open spec fn with_write(self, r: Exception) -> ChannelView {
        ChannelView { replies: Replies { write: Some(r), ..self.replies }, ..self }
    }

    /// The channel after one more use.
    pub open spec fn after(self, event: ChannelEvent) -> ChannelView {
        ChannelView { history: self.history.push(event), ..self }
    }

    /// The local endpoint id that was set last; empty before any was.
    pub open spec fn local_endpoint_id(self) -> Seq<char> {
        last_local_endpoint_id(self.history)
    }
}

pub open spec fn last_local_endpoint_id(history: Seq<ChannelEvent>) -> Seq<char>
    decreases history.len(),
{
    if history.len() == 0 {
        Seq::empty()
    } else {
        match history.last() {
            ChannelEvent::SetLocalEndpointId(id) => id,
            _ => last_local_endpoint_id(history.drop_last()),
        }
    }
}

/// Whether the channel was closed.
pub open spec fn was_closed(history: Seq<ChannelEvent>) -> bool
    decreases history.len(),
{
    history.len() > 0 && (history.last() is Close || history.last() is CloseWithReason
        || was_closed(history.drop_last()))
}

/// The reason with which the channel was closed last; unknown before it was.
pub open spec fn last_reason(history: Seq<ChannelEvent>) -> DisconnectionReason
    decreases history.len(),
{
    if history.len() == 0 {
        DisconnectionReason::UnknownDisconnectionReason
    } else {
        match history.last() {
            ChannelEvent::CloseWithReason(reason) => reason,
            _ => last_reason(history.drop_last()),
        }
    }
}

/// Whether something was written to the channel.
pub open spec fn was_written(history: Seq<ChannelEvent>) -> bool
    decreases history.len(),
{
    history.len() > 0 && (history.last() is Write || was_written(history.drop_last()))
}

/// Whether the channel was paused and not resumed since.
pub open spec fn was_paused(history: Seq<ChannelEvent>) -> bool
    decreases history.len(),
{
    if history.len() == 0 {
        false
    } else {
        match history.last() {
            ChannelEvent::Pause => true,
            ChannelEvent::Resume => false,
            _ => was_paused(history.drop_last()),
        }
    }
}

/// The link over which the frames of an endpoint travel. What a read or a write gives
/// is up to the channel, as far as it is not known beforehand; that it is recorded is
/// not.
pub trait EndpointChannel: Sized {
    /// What encrypts the channel.
    type Key;

    /// What the channel was made with, what it will give, and how it was used since.
    closed spec fn channel(&self) -> ChannelView {
        arbitrary()
    }

    /// Whether writes are held back.
    closed spec fn paused(&self) -> bool {
        arbitrary()
    }

    /// What the channel calls its kind.
    closed spec fn kind(&self) -> Seq<char> {
        arbitrary()
    }

    /// Reads one frame.
    fn read(&mut self) -> (r: Result<Vec<u8>, Exception>)
        ensures
            frames::result_view(r) == old(self).channel().reads(frames::result_view(r)),
            final(self).channel() == old(self).channel().after(
                ChannelEvent::Read(frames::result_view(r)),
            ),
            final(self).paused() == old(self).paused(),
    ;

    /// Writes one frame; [`Exception::Success`] if it went out.
    fn write(&mut self, data: &[u8]) -> (r: Exception)
        ensures
            r == old(self).channel().writes(r),
            final(self).channel() == old(self).channel().after(ChannelEvent::Write(data@, r)),
            final(self).paused() == old(self).paused(),
    ;

    fn close(&mut self)
        ensures
            final(self).channel() == old(self).channel().after(ChannelEvent::Close),
    ;

    fn close_with_reason(&mut self, reason: DisconnectionReason)
        ensures
            final(self).channel() == old(self).channel().after(
                ChannelEvent::CloseWithReason(reason),
            ),
    ;

    fn medium(&self) -> (r: Medium)
        ensures
            r == self.channel().medium,
    ;

    fn service_id(&self) -> (r: String)
        ensures
            r@ == self.channel().service_id,
    ;

    fn name(&self) -> (r: String)
        ensures
            r@ == self.channel().name,
    ;

    fn channel_type(&self) -> (r: String)
        ensures
            r@ == self.kind(),
    ;

    fn local_endpoint_id(&self) -> (r: String)
        ensures
            r@ == self.channel().local_endpoint_id(),
    ;

    fn set_local_endpoint_id(&mut self, local_endpoint_id: &str)
        ensures
            final(self).channel() == old(self).channel().after(
                ChannelEvent::SetLocalEndpointId(local_endpoint_id@),
            ),
            final(self).paused() == old(self).paused(),
    ;

    /// Holds writes back.
    fn pause(&mut self)
        ensures
            final(self).channel() == old(self).channel().after(ChannelEvent::Pause),
            final(self).paused(),
    ;

    /// Lets writes through again.
    fn resume(&mut self)
        ensures
            final(self).channel() == old(self).channel().after(ChannelEvent::Resume),
            !final(self).paused(),
    ;

    fn is_paused(&self) -> (r: bool)
        ensures
            r == self.paused(),
    ;

    /// Encrypts what is written from now on, and decrypts what is read. An upgrade
    /// does not call this: whoever takes over the upgraded channel does.
    fn enable_encryption(&mut self, cipher: Self::Key)
        ensures
            final(self).channel() == old(self).channel().after(ChannelEvent::EnableEncryption),
            final(self).paused() == old(self).paused(),
    ;

    fn disable_encryption(&mut self)
        ensures
            final(self).channel() == old(self).channel().after(ChannelEvent::DisableEncryption),
            final(self).paused() == old(self).paused(),
    ;
}

/// What a read or a write gives is what is known of it, and up to the channel where nothing
/// is. A use is put on record, and nothing else of the channel changes.
pub proof fn lemma_replies(
    channel: ChannelView,
    event: ChannelEvent,
    read: Result<Seq<u8>, Exception>,
    write: Exception,
)
    ensures
        channel.replies.read is None ==> channel.reads(read) == read,
        channel.replies.read matches Some(known) ==> channel.reads(read) == known,
        channel.replies.write is None ==> channel.writes(write) == write,
        channel.replies.write matches Some(known) ==> channel.writes(write) == known,
        channel.with_read(read).reads(Err(Exception::Failed)) == read,
        channel.with_read(read).writes(write) == channel.writes(write),
        channel.with_write(write).writes(Exception::Failed) == write,
        channel.with_write(write).reads(read) == channel.reads(read),
        ({
            let after = channel.after(event);
            &&& after.medium == channel.medium
            &&& after.service_id == channel.service_id
            &&& after.name == channel.name
            &&& after.replies == channel.replies
            &&& after.history == channel.history.push(event)
        }),
{
}

/// What the uses of a channel come to: it is closed once it was closed, for the reason that
/// was given last; paused while the last of its pauses and resumptions is a pause; written
/// once it was written; and its local endpoint id is the one that was set last.
pub proof fn lemma_uses(channel: ChannelView, event: ChannelEvent)
    ensures
        ({
            let before = channel.history;
            let after = channel.after(event).history;
            &&& was_closed(after) == (was_closed(before) || event is Close || event
                is CloseWithReason)
            &&& last_reason(after) == (match event {
                ChannelEvent::CloseWithReason(reason) => reason,
                _ => last_reason(before),
            })
            &&& was_paused(after) == (match event {
                ChannelEvent::Pause => true,
                ChannelEvent::Resume => false,
                _ => was_paused(before),
            })
            &&& was_written(after) == (was_written(before) || event is Write)
            &&& channel.after(event).local_endpoint_id() == (match event {
                ChannelEvent::SetLocalEndpointId(id) => id,
                _ => channel.local_endpoint_id(),
            })
        }),
        !was_closed(Seq::empty()),
        !was_paused(Seq::empty()),
        !was_written(Seq::empty()),
        last_reason(Seq::empty()) == DisconnectionReason::UnknownDisconnectionReason,
        last_local_endpoint_id(Seq::empty()).len() == 0,
{
    assert(channel.history.push(event).drop_last() =~= channel.history);
}

} // verus!

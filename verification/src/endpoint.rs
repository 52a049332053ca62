//! The decisions of the two tunnel roles. The caller does the reading and
//! writing and reports each outcome as an event; the endpoint answers with
//! the next thing to do.

use crate::args::Mode;
use crate::error::TunnelError;
use crate::frame::{datagram_of, declared_len, encode_frame, frame_of, LENGTH_FIELD_LEN};
use crate::packet::{be16, read_be16};
use crate::parse::{ActionView, EventView, IPStream, SourceEvent, StreamAction, StreamView};
use vstd::prelude::*;

verus! {

/// What the caller reports to an originator.
#[derive(Debug, PartialEq, Eq)]
pub enum OriginatorEvent {
    /// What came of the virtual interface; `Resume` at the start.
    Source(SourceEvent),
    /// The frame was written to the connection.
    Sent,
    /// The write to the connection failed.
    SendFailed,
}

/// What an originator asks of the caller.
#[derive(Debug, PartialEq, Eq)]
pub enum OriginatorAction {
    /// Read a chunk from the virtual interface.
    ReadSource,
    /// Write this frame to the connection, whole.
    Send(Vec<u8>),
    /// Stop: nothing more will be done.
    Stop(TunnelError),
}

/// The mathematical content of an [`OriginatorEvent`].
pub enum OriginatorEventView {
    Source(EventView),
    Sent,
    SendFailed,
}

/// The mathematical content of an [`OriginatorAction`].
pub enum OriginatorActionView {
    ReadSource,
    Send(Seq<u8>),
    Stop(TunnelError),
}

impl View for OriginatorEvent {
    type V = OriginatorEventView;

    open spec fn view(&self) -> OriginatorEventView {
        match self {
            OriginatorEvent::Source(event) => OriginatorEventView::Source(event@),
            OriginatorEvent::Sent => OriginatorEventView::Sent,
            OriginatorEvent::SendFailed => OriginatorEventView::SendFailed,
        }
    }
}

impl View for OriginatorAction {
    type V = OriginatorActionView;

    open spec fn view(&self) -> OriginatorActionView {
        match self {
            OriginatorAction::ReadSource => OriginatorActionView::ReadSource,
            OriginatorAction::Send(frame) => OriginatorActionView::Send(frame@),
            OriginatorAction::Stop(reason) => OriginatorActionView::Stop(*reason),
        }
    }
}

/// An originator as a mathematical value.
pub struct OriginatorView {
    pub stream: StreamView,
    pub stopped: Option<TunnelError>,
}

impl OriginatorView {
    /// An originator that has done nothing yet.
    pub open spec fn fresh() -> OriginatorView {
        OriginatorView { stream: StreamView::fresh(), stopped: None }
    }

    /// What the originator makes of the reassembler's answer. `on_error` is
    /// the reason to stop with if the answer is an error.
    pub open spec fn react(found: (StreamView, ActionView), on_error: TunnelError) -> (
        OriginatorView,
        OriginatorActionView,
    ) {
        match found.1 {
            ActionView::Read => (
                OriginatorView { stream: found.0, stopped: None },
                OriginatorActionView::ReadSource,
            ),
            ActionView::Yield(Ok(packet)) => (
                OriginatorView { stream: found.0, stopped: None },
                OriginatorActionView::Send(frame_of(packet.datagram())),
            ),
            ActionView::Yield(Err(_)) => (
                OriginatorView { stream: found.0, stopped: Some(on_error) },
                OriginatorActionView::Stop(on_error),
            ),
            ActionView::Done => (
                OriginatorView { stream: found.0, stopped: Some(TunnelError::SourceReadError) },
                OriginatorActionView::Stop(TunnelError::SourceReadError),
            ),
        }
    }

    /// The originator's reaction to an event: the state reached and the
    /// action asked for.
    pub open spec fn step(self, event: OriginatorEventView) -> (
        OriginatorView,
        OriginatorActionView,
    ) {
        match self.stopped {
            Some(reason) => (self, OriginatorActionView::Stop(reason)),
            None => match event {
                OriginatorEventView::SendFailed => (
                    OriginatorView { stopped: Some(TunnelError::TransportWriteError), ..self },
                    OriginatorActionView::Stop(TunnelError::TransportWriteError),
                ),
                OriginatorEventView::Sent => Self::react(
                    self.stream.next(EventView::Resume),
                    TunnelError::MalformedHeader,
                ),
                OriginatorEventView::Source(EventView::ReadFailed) => Self::react(
                    self.stream.next(EventView::ReadFailed),
                    TunnelError::SourceReadError,
                ),
                OriginatorEventView::Source(source) => Self::react(
                    self.stream.next(source),
                    TunnelError::MalformedHeader,
                ),
            },
        }
    }
}

/// The sending role: pulls packets out of the virtual interface's byte
/// stream and frames each for the connection.
pub struct Originator {
    stream: IPStream,
    stopped: Option<TunnelError>,
}

impl View for Originator {
    type V = OriginatorView;

    closed spec fn view(&self) -> OriginatorView {
        OriginatorView { stream: self.stream@, stopped: self.stopped }
    }
}

impl Originator {
    /// An originator that has done nothing yet.
    pub fn new() -> (originator: Self)
        ensures
            originator@ == OriginatorView::fresh(),
    {
        Originator { stream: IPStream::new(), stopped: None }
    }

    /// Reacts to an event and says what to do next.
    ///
    /// Every packet that the bytes read so far complete is sent before
    /// another read is asked for. After a failed read, a failed write or a
    /// malformed header the originator stops, and stays stopped.
    pub fn step(&mut self, event: OriginatorEvent) -> (action: OriginatorAction)
        ensures
            final(self)@ == old(self)@.step(event@).0,
            action@ == old(self)@.step(event@).1,
    {
        if let Some(reason) = self.stopped {
            return OriginatorAction::Stop(reason);
        }
        let (source, on_error) = match event {
            OriginatorEvent::SendFailed => {
                self.stopped = Some(TunnelError::TransportWriteError);
                return OriginatorAction::Stop(TunnelError::TransportWriteError);
            },
            OriginatorEvent::Sent => (SourceEvent::Resume, TunnelError::MalformedHeader),
            OriginatorEvent::Source(SourceEvent::ReadFailed) => (
                SourceEvent::ReadFailed,
                TunnelError::SourceReadError,
            ),
            OriginatorEvent::Source(source) => (source, TunnelError::MalformedHeader),
        };
        match self.stream.next(source) {
            StreamAction::Read => OriginatorAction::ReadSource,
            StreamAction::Yield(Ok(packet)) => OriginatorAction::Send(encode_frame(&packet)),
            StreamAction::Yield(Err(_)) => {
                self.stopped = Some(on_error);
                OriginatorAction::Stop(on_error)
            },
            StreamAction::Done => {
                self.stopped = Some(TunnelError::SourceReadError);
                OriginatorAction::Stop(TunnelError::SourceReadError)
            },
        }
    }
}

/// Where a responder stands.
#[derive(Debug, Clone, Copy, PartialEq, Eq)]
pub enum ResponderState {
    /// The length field of the next frame is awaited.
    AwaitingLength,
    /// The length field declared this many bytes, and they are awaited.
    AwaitingBody(u16),
    /// The responder has stopped.
    Stopped(TunnelError),
}

/// What the caller reports to a responder.
#[derive(Debug, PartialEq, Eq)]
pub enum ResponderEvent {
    /// Nothing has happened yet.
    Started,
    /// The read that was asked for delivered these bytes.
    Received(Vec<u8>),
    /// The connection failed or closed before the bytes asked for arrived.
    ReceiveFailed,
    /// The datagram was written to the virtual interface.
    Delivered,
    /// The write to the virtual interface failed.
    DeliverFailed,
}

/// What a responder asks of the caller.
#[derive(Debug, PartialEq, Eq)]
pub enum ResponderAction {
    /// Read exactly this many bytes from the connection.
    Receive(usize),
    /// Write this datagram to the virtual interface, unchanged.
    Deliver(Vec<u8>),
    /// Stop: nothing more will be done.
    Stop(TunnelError),
}

/// The mathematical content of a [`ResponderEvent`].
pub enum ResponderEventView {
    Started,
    Received(Seq<u8>),
    ReceiveFailed,
    Delivered,
    DeliverFailed,
}

/// The mathematical content of a [`ResponderAction`].
pub enum ResponderActionView {
    Receive(nat),
    Deliver(Seq<u8>),
    Stop(TunnelError),
}

impl View for ResponderEvent {
    type V = ResponderEventView;

    open spec fn view(&self) -> ResponderEventView {
        match self {
            ResponderEvent::Started => ResponderEventView::Started,
            ResponderEvent::Received(bytes) => ResponderEventView::Received(bytes@),
            ResponderEvent::ReceiveFailed => ResponderEventView::ReceiveFailed,
            ResponderEvent::Delivered => ResponderEventView::Delivered,
            ResponderEvent::DeliverFailed => ResponderEventView::DeliverFailed,
        }
    }
}

impl View for ResponderAction {
    type V = ResponderActionView;

    open spec fn view(&self) -> ResponderActionView {
        match self {
            ResponderAction::Receive(count) => ResponderActionView::Receive(*count as nat),
            ResponderAction::Deliver(datagram) => ResponderActionView::Deliver(datagram@),
            ResponderAction::Stop(reason) => ResponderActionView::Stop(*reason),
        }
    }
}

impl ResponderState {
    /// The number of bytes that the responder waits for.
    pub open spec fn wanted(self) -> nat {
        match self {
            ResponderState::AwaitingLength => LENGTH_FIELD_LEN as nat,
            ResponderState::AwaitingBody(len) => len as nat,
            ResponderState::Stopped(_) => 0,
        }
    }

    /// The state that has stopped for `reason`, with the action that says so.
    pub open spec fn stop(reason: TunnelError) -> (ResponderState, ResponderActionView) {
        (ResponderState::Stopped(reason), ResponderActionView::Stop(reason))
    }

    /// The reason to stop with when the bytes waited for do not arrive.
    pub open spec fn short_read(self) -> TunnelError {
        match self {
            ResponderState::AwaitingBody(_) => TunnelError::TruncatedFrame,
            _ => TunnelError::TransportReadError,
        }
    }

    /// The responder's reaction to an event: the state reached and the action
    /// asked for.
    pub open spec fn step(self, event: ResponderEventView) -> (
        ResponderState,
        ResponderActionView,
    ) {
        match self {
            ResponderState::Stopped(reason) => (self, ResponderActionView::Stop(reason)),
            _ => match event {
                ResponderEventView::Started | ResponderEventView::Delivered => (
                    self,
                    ResponderActionView::Receive(self.wanted()),
                ),
                ResponderEventView::DeliverFailed => Self::stop(TunnelError::InterfaceWriteError),
                ResponderEventView::ReceiveFailed => Self::stop(self.short_read()),
                ResponderEventView::Received(bytes) => {
                    if bytes.len() != self.wanted() {
                        Self::stop(self.short_read())
                    } else if self is AwaitingLength {
                        (
                            ResponderState::AwaitingBody(be16(bytes[0], bytes[1])),
                            ResponderActionView::Receive(be16(bytes[0], bytes[1]) as nat),
                        )
                    } else {
                        (ResponderState::AwaitingLength, ResponderActionView::Deliver(bytes))
                    }
                },
            },
        }
    }
}

/// The receiving role: takes frames off the connection and hands each
/// datagram to the virtual interface.
pub struct Responder {
    pub state: ResponderState,
}

impl Responder {
    /// A responder that awaits its first frame.
    pub fn new() -> (responder: Self)
        ensures
            responder.state == ResponderState::AwaitingLength,
    {
        Responder { state: ResponderState::AwaitingLength }
    }

    /// Records that the responder stops for `reason`.
    fn stop(&mut self, reason: TunnelError) -> (action: ResponderAction)
        ensures
            (final(self).state, action@) == ResponderState::stop(reason),
    {
        self.state = ResponderState::Stopped(reason);
        ResponderAction::Stop(reason)
    }

    /// Reacts to an event and says what to do next.
    ///
    /// A read that fails or comes back with another number of bytes than
    /// was asked for stops the responder: with `TransportReadError` where a
    /// frame would begin, with `TruncatedFrame` inside a frame.
    pub fn step(&mut self, event: ResponderEvent) -> (action: ResponderAction)
        ensures
            (final(self).state, action@) == old(self).state.step(event@),
    {
        match self.state {
            ResponderState::Stopped(reason) => ResponderAction::Stop(reason),
            ResponderState::AwaitingLength => match event {
                ResponderEvent::Started | ResponderEvent::Delivered => ResponderAction::Receive(
                    LENGTH_FIELD_LEN,
                ),
                ResponderEvent::DeliverFailed => self.stop(TunnelError::InterfaceWriteError),
                ResponderEvent::ReceiveFailed => self.stop(TunnelError::TransportReadError),
                ResponderEvent::Received(bytes) => {
                    if bytes.len() != LENGTH_FIELD_LEN {
                        self.stop(TunnelError::TransportReadError)
                    } else {
                        let len = read_be16(bytes[0], bytes[1]);
                        self.state = ResponderState::AwaitingBody(len);
                        ResponderAction::Receive(len as usize)
                    }
                },
            },
            ResponderState::AwaitingBody(len) => match event {
                ResponderEvent::Started | ResponderEvent::Delivered => ResponderAction::Receive(
                    len as usize,
                ),
                ResponderEvent::DeliverFailed => self.stop(TunnelError::InterfaceWriteError),
                ResponderEvent::ReceiveFailed => self.stop(TunnelError::TruncatedFrame),
                ResponderEvent::Received(bytes) => {
                    if bytes.len() != len as usize {
                        self.stop(TunnelError::TruncatedFrame)
                    } else {
                        self.state = ResponderState::AwaitingLength;
                        ResponderAction::Deliver(bytes)
                    }
                },
            },
        }
    }
}

/// One end of the tunnel, in the role that its mode gives it.
pub enum TunnelEndpoint {
    Originator(Originator),
    Responder(Responder),
}

impl TunnelEndpoint {
    /// The endpoint for `mode`: a client originates, a server responds.
    pub fn new(mode: &Mode) -> (endpoint: Self)
        ensures
            match mode {
                Mode::Client { .. } => endpoint matches TunnelEndpoint::Originator(o) && o@
                    == OriginatorView::fresh(),
                Mode::Server { .. } => endpoint matches TunnelEndpoint::Responder(r) && r.state
                    == ResponderState::AwaitingLength,
            },
    {
        match mode {
            Mode::Client { .. } => TunnelEndpoint::Originator(Originator::new()),
            Mode::Server { .. } => TunnelEndpoint::Responder(Responder::new()),
        }
    }
}

/// What a read of exactly `count` bytes reports when `bytes` is all that
/// the connection still delivers.
pub open spec fn exact_read(bytes: Seq<u8>, count: nat) -> ResponderEventView {
    if bytes.len() >= count {
        ResponderEventView::Received(bytes.take(count as int))
    } else {
        ResponderEventView::ReceiveFailed
    }
}

/// A responder that reads from a connection which delivers `bytes` and
/// then closes makes of them what decoding makes of them: it delivers the
/// datagram of the first frame, or stops for the reason why there is none.
pub proof fn lemma_responder_decodes(bytes: Seq<u8>)
    ensures
        ({
            let begin = ResponderState::AwaitingLength;
            let (s1, a1) = begin.step(ResponderEventView::Started);
            let (s2, a2) = s1.step(exact_read(bytes, LENGTH_FIELD_LEN as nat));
            let (s3, a3) = s2.step(
                exact_read(bytes.skip(LENGTH_FIELD_LEN as int), declared_len(bytes) as nat),
            );
            &&& a1 == ResponderActionView::Receive(LENGTH_FIELD_LEN as nat)
            &&& match datagram_of(bytes) {
                Ok(datagram) => {
                    &&& a2 == ResponderActionView::Receive(declared_len(bytes) as nat)
                    &&& a3 == ResponderActionView::Deliver(datagram)
                    &&& s3 == begin
                },
                Err(TunnelError::TransportReadError) => a2 == ResponderActionView::Stop(
                    TunnelError::TransportReadError,
                ),
                Err(reason) => {
                    &&& a2 == ResponderActionView::Receive(declared_len(bytes) as nat)
                    &&& a3 == ResponderActionView::Stop(reason)
                },
            }
        }),
{
    if bytes.len() >= LENGTH_FIELD_LEN {
        let declared = declared_len(bytes);
        if bytes.len() - LENGTH_FIELD_LEN >= declared {
            assert(bytes.skip(2).take(declared) =~= bytes.subrange(2, 2 + declared));
        }
    }
}

} // verus!

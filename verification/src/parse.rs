use crate::packet::{
    announced_header_len, header_of, read_be16, IpHeader, IpPacket, PacketView, MAX_HEADER_LEN,
    MIN_HEADER_LEN,
};
use vstd::prelude::*;

verus! {

/// Where the reassembler stands between two packets.
///
/// `Header(None)`: the next header's length is not known yet.
/// `Header(Some(n))`: a header of `n` bytes is awaited.
/// `Data(n)`: a header was taken and `n` bytes of payload are awaited.
#[derive(Debug, Clone, Copy, PartialEq, Eq)]
pub enum CurrentState {
    Header(Option<u8>),
    Data(u16),
}

impl CurrentState {
    /// The state that awaits a header of `size` bytes.
    pub fn header(size: u8) -> (state: Self)
        ensures
            state == CurrentState::Header(Some(size)),
    {
        Self::Header(Some(size))
    }
}

/// Decodes the fixed fields of an IPv4 header from its first 20 bytes.
pub fn parse_ip_header(header: &[u8]) -> (h: IpHeader)
    requires
        header@.len() >= 20,
    ensures
        h == header_of(header@),
{
    let b0: u8 = header[0];
    let b6: u8 = header[6];
    assert((b0 >> 4) & 0x0F == b0 / 16) by (bit_vector);
    assert((b0 & 0x0F) * 4 == (b0 % 16) * 4 && (b0 & 0x0F) <= 15) by (bit_vector);
    assert((b6 >> 5) & 0x07 == b6 / 32) by (bit_vector);
    assert(b6 & 0x1F == b6 % 32) by (bit_vector);
    IpHeader {
        version: (b0 >> 4) & 0x0F,
        header_length: (b0 & 0x0F) * 4,
        total_length: read_be16(header[2], header[3]),
        identification: read_be16(header[4], header[5]),
        flags: (b6 >> 5) & 0x07,
        fragment_offset: read_be16(b6 & 0x1F, header[7]),
        time_to_live: header[8],
        protocol: header[9],
        header_checksum: read_be16(header[10], header[11]),
        source: [header[12], header[13], header[14], header[15]],
        destination: [header[16], header[17], header[18], header[19]],
    }
}

/// The one error of the packet sequence: a read failed, or a header
/// announced fewer than 20 bytes and cannot be decoded. It ends the
/// sequence.
#[derive(Debug, Clone, Copy, PartialEq, Eq)]
pub struct ParseError;

/// What the caller reports to the reassembler before asking for the next
/// action.
#[derive(Debug, PartialEq, Eq)]
pub enum SourceEvent {
    /// Nothing was read since the last action.
    Resume,
    /// A read delivered these bytes.
    Chunk(Vec<u8>),
    /// A read failed.
    ReadFailed,
}

/// What the reassembler asks of the caller.
#[derive(Debug, PartialEq, Eq)]
pub enum StreamAction {
    /// No complete packet is buffered: read another chunk.
    Read,
    /// The next item of the sequence.
    Yield(Result<IpPacket, ParseError>),
    /// The sequence has ended.
    Done,
}

/// The mathematical content of a [`SourceEvent`].
pub enum EventView {
    Resume,
    Chunk(Seq<u8>),
    ReadFailed,
}

/// The mathematical content of a [`StreamAction`].
pub enum ActionView {
    Read,
    Yield(Result<PacketView, ParseError>),
    Done,
}

impl View for SourceEvent {
    type V = EventView;

    open spec fn view(&self) -> EventView {
        match self {
            SourceEvent::Resume => EventView::Resume,
            SourceEvent::Chunk(bytes) => EventView::Chunk(bytes@),
            SourceEvent::ReadFailed => EventView::ReadFailed,
        }
    }
}

impl View for StreamAction {
    type V = ActionView;

    open spec fn view(&self) -> ActionView {
        match self {
            StreamAction::Read => ActionView::Read,
            StreamAction::Yield(Ok(packet)) => ActionView::Yield(Ok(packet@)),
            StreamAction::Yield(Err(e)) => ActionView::Yield(Err(*e)),
            StreamAction::Done => ActionView::Done,
        }
    }
}

/// The reassembler as a mathematical value.
pub struct StreamView {
    pub state: CurrentState,
    /// The raw bytes of the header whose payload is awaited; empty while a
    /// header is awaited.
    pub retained: Seq<u8>,
    /// The bytes that arrived and were not consumed yet, oldest first.
    pub buffer: Seq<u8>,
    /// The sequence has ended.
    pub closed: bool,
}

/// What one transition of the reassembler does.
pub enum Step {
    /// The buffer holds too little for the current state.
    Wait,
    /// The state changed and nothing was emitted.
    Move(StreamView),
    /// A packet is complete.
    Emit(StreamView, PacketView),
    /// The awaited header is shorter than the fixed fields.
    Fail,
}

/// What draining the buffer up to the next packet finds.
pub enum Poll {
    /// No complete packet is buffered.
    Pending,
    /// The next packet.
    Packet(PacketView),
    /// A header too short to decode.
    Malformed,
}

impl StreamView {
    /// A new reassembler: nothing buffered, no header length known.
    pub open spec fn fresh() -> StreamView {
        StreamView {
            state: CurrentState::Header(None),
            retained: Seq::empty(),
            buffer: Seq::empty(),
            closed: false,
        }
    }

    /// An ended sequence. It holds no bytes.
    pub open spec fn ended() -> StreamView {
        StreamView {
            state: CurrentState::Header(None),
            retained: Seq::empty(),
            buffer: Seq::empty(),
            closed: true,
        }
    }

    /// While a payload is awaited, the retained header accounts for it.
    pub open spec fn wf(self) -> bool {
        &&& self.closed ==> self == StreamView::ended()
        &&& match self.state {
            CurrentState::Header(None) => self.retained.len() == 0,
            CurrentState::Header(Some(size)) => self.retained.len() == 0 && size <= MAX_HEADER_LEN,
            CurrentState::Data(need) => {
                &&& MIN_HEADER_LEN <= self.retained.len() <= MAX_HEADER_LEN
                &&& header_of(self.retained).total_length == self.retained.len() + need
            },
        }
    }

    /// The bytes of `chunk` appended at the tail of the buffer. An ended
    /// sequence takes no bytes.
    pub open spec fn feed(self, chunk: Seq<u8>) -> StreamView {
        if self.closed {
            self
        } else {
            StreamView { buffer: self.buffer + chunk, ..self }
        }
    }

    /// One transition, driven by how many bytes the buffer holds.
    ///
    /// A complete header is removed from the buffer, decoded and retained,
    /// and the rest of its total length is awaited as payload. A header whose
    /// total length is smaller than its own length announces no packet: its
    /// bytes are removed, nothing is retained, and a header of the same
    /// length is awaited next.
    pub open spec fn step(self) -> Step {
        if self.closed {
            Step::Wait
        } else {
            match self.state {
                CurrentState::Header(None) => {
                    if self.buffer.len() == 0 {
                        Step::Wait
                    } else {
                        Step::Move(
                            StreamView {
                                state: CurrentState::Header(
                                    Some(announced_header_len(self.buffer[0])),
                                ),
                                ..self
                            },
                        )
                    }
                },
                CurrentState::Header(Some(size)) => {
                    if size < MIN_HEADER_LEN {
                        Step::Fail
                    } else if self.buffer.len() < size {
                        Step::Wait
                    } else {
                        let raw = self.buffer.take(size as int);
                        let rest = self.buffer.skip(size as int);
                        let total = header_of(raw).total_length;
                        if total >= size {
                            Step::Move(
                                StreamView {
                                    state: CurrentState::Data((total - size) as u16),
                                    retained: raw,
                                    buffer: rest,
                                    closed: false,
                                },
                            )
                        } else {
                            Step::Move(StreamView { buffer: rest, ..self })
                        }
                    }
                },
                CurrentState::Data(need) => {
                    if self.buffer.len() < need {
                        Step::Wait
                    } else {
                        Step::Emit(
                            StreamView {
                                state: CurrentState::Header(None),
                                retained: Seq::empty(),
                                buffer: self.buffer.skip(need as int),
                                closed: false,
                            },
                            PacketView {
                                header: header_of(self.retained),
                                header_data: self.retained,
                                data: self.buffer.take(need as int),
                            },
                        )
                    }
                },
            }
        }
    }

    /// A number that every transition lowers.
    pub open spec fn rank(self) -> nat {
        3 * self.buffer.len() + match self.state {
            CurrentState::Header(Some(_)) => 0nat,
            CurrentState::Header(None) => 1nat,
            CurrentState::Data(_) => 2nat,
        }
    }

    /// Transitions up to the next packet, or until the buffer holds too
    /// little: the state reached and what was found.
    pub open spec fn poll(self) -> (StreamView, Poll)
        decreases self.rank(),
    {
        match self.step() {
            Step::Wait => (self, Poll::Pending),
            Step::Move(next) => next.poll(),
            Step::Emit(next, packet) => (next, Poll::Packet(packet)),
            Step::Fail => (StreamView::ended(), Poll::Malformed),
        }
    }

    /// The reassembler's reaction to an event: the state reached and the
    /// action asked for.
    pub open spec fn next(self, event: EventView) -> (StreamView, ActionView) {
        if self.closed {
            (self, ActionView::Done)
        } else {
            match event {
                EventView::ReadFailed => (StreamView::ended(), ActionView::Yield(Err(ParseError))),
                EventView::Resume => poll_action(self.poll()),
                EventView::Chunk(bytes) => poll_action(self.feed(bytes).poll()),
            }
        }
    }
}

/// The action that reports what a poll found.
pub open spec fn poll_action(found: (StreamView, Poll)) -> (StreamView, ActionView) {
    match found.1 {
        Poll::Pending => (found.0, ActionView::Read),
        Poll::Packet(packet) => (found.0, ActionView::Yield(Ok(packet))),
        Poll::Malformed => (found.0, ActionView::Yield(Err(ParseError))),
    }
}

/// What an attempt to take a packet returned, as a [`Poll`].
pub open spec fn poll_of(taken: Option<Result<IpPacket, ParseError>>) -> Poll {
    match taken {
        None => Poll::Pending,
        Some(Ok(packet)) => Poll::Packet(packet@),
        Some(Err(_)) => Poll::Malformed,
    }
}

/// Reassembles IPv4 packets from a byte stream that arrives in chunks of any
/// size.
///
/// The caller does the reading: it hands each chunk, or the failure of a
/// read, to [`IPStream::next`], and does what the returned action says.
pub struct IPStream {
    buffer: Vec<u8>,
    current_state: CurrentState,
    current_header: Option<(IpHeader, Vec<u8>)>,
    closed: bool,
}

impl View for IPStream {
    type V = StreamView;

    closed spec fn view(&self) -> StreamView {
        StreamView {
            state: self.current_state,
            retained: match (self.current_state, self.current_header) {
                (CurrentState::Data(_), Some((_, raw))) => raw@,
                _ => Seq::empty(),
            },
            buffer: self.buffer@,
            closed: self.closed,
        }
    }
}

impl IPStream {
    #[verifier::type_invariant]
    spec fn inv(self) -> bool {
        &&& self.closed ==> self.current_state == CurrentState::Header(None) && self.buffer@
            == Seq::<u8>::empty()
        &&& self.current_state matches CurrentState::Header(Some(size)) ==> size
            <= MAX_HEADER_LEN
        &&& self.current_state is Data ==> self.current_header is Some
        &&& match (self.current_state, self.current_header) {
            (CurrentState::Data(need), Some((header, raw))) => {
                &&& header == header_of(raw@)
                &&& MIN_HEADER_LEN <= raw@.len() <= MAX_HEADER_LEN
                &&& header.total_length == raw@.len() + need
            },
            _ => true,
        }
    }

    /// A reassembler that has seen no byte.
    pub fn new() -> (stream: Self)
        ensures
            stream@ == StreamView::fresh(),
    {
        IPStream {
            buffer: Vec::new(),
            current_state: CurrentState::Header(None),
            current_header: None,
            closed: false,
        }
    }

    /// The state that the reassembler is in.
    pub fn state(&self) -> (state: CurrentState)
        ensures
            state == self@.state,
    {
        self.current_state
    }

    /// The number of bytes that arrived and were not consumed yet.
    pub fn buffered(&self) -> (count: usize)
        ensures
            count == self@.buffer.len(),
    {
        self.buffer.len()
    }

    /// Whether the sequence has ended.
    pub fn is_closed(&self) -> (closed: bool)
        ensures
            closed == self@.closed,
    {
        self.closed
    }

    /// Appends a chunk at the tail of the buffer. An ended sequence takes
    /// no bytes.
    pub fn feed(&mut self, chunk: &[u8])
        ensures
            final(self)@ == old(self)@.feed(chunk@),
            final(self)@.wf(),
    {
        proof {
            use_type_invariant(&*self);
        }
        if !self.closed {
            let mut buffer: Vec<u8> = Vec::new();
            std::mem::swap(&mut self.buffer, &mut buffer);
            buffer.extend_from_slice(chunk);
            std::mem::swap(&mut self.buffer, &mut buffer);
            assert(self.buffer@ =~= old(self).buffer@ + chunk@);
        }
    }

    /// Removes the first `n` bytes of the buffer and returns them.
    fn take_front(&mut self, n: usize) -> (head: Vec<u8>)
        requires
            n <= old(self).buffer@.len(),
            !old(self).closed,
        ensures
            head@ == old(self).buffer@.take(n as int),
            final(self).buffer@ == old(self).buffer@.skip(n as int),
            final(self).current_state == old(self).current_state,
            final(self).current_header == old(self).current_header,
            final(self).closed == old(self).closed,
    {
        proof {
            use_type_invariant(&*self);
        }
        let mut head: Vec<u8> = Vec::new();
        std::mem::swap(&mut self.buffer, &mut head);
        let mut rest = head.split_off(n);
        std::mem::swap(&mut self.buffer, &mut rest);
        assert(head@ =~= old(self).buffer@.take(n as int));
        assert(self.buffer@ =~= old(self).buffer@.skip(n as int));
        head
    }

    /// Ends the sequence and drops what was buffered.
    fn close(&mut self)
        ensures
            final(self)@ == StreamView::ended(),
    {
        proof {
            use_type_invariant(&*self);
        }
        self.current_state = CurrentState::Header(None);
        self.current_header = None;
        self.buffer = Vec::new();
        self.closed = true;
    }

    /// Takes the next complete packet out of the buffer, if it holds one.
    ///
    /// `None` means that more bytes are needed. An error means that the
    /// awaited header is shorter than 20 bytes; the sequence has then ended.
    pub fn try_take_packet(&mut self) -> (taken: Option<Result<IpPacket, ParseError>>)
        ensures
            final(self)@ == old(self)@.poll().0,
            poll_of(taken) == old(self)@.poll().1,
            final(self)@.wf(),
            taken matches Some(Ok(packet)) ==> packet@.wf(),
    {
        proof {
            use_type_invariant(&*self);
        }
        if self.closed {
            return None;
        }
        loop
            invariant
                !self.closed,
                self@.poll() == old(self)@.poll(),
            decreases self@.rank(),
        {
            proof {
                use_type_invariant(&*self);
            }
            match self.current_state {
                CurrentState::Header(None) => {
                    if self.buffer.len() == 0 {
                        return None;
                    }
                    let first: u8 = self.buffer[0];
                    assert((first & 0x0F) * 4 == (first % 16) * 4 && (first & 0x0F) <= 15)
                        by (bit_vector);
                    self.current_state = CurrentState::header((first & 0x0F) * 4);
                },
                CurrentState::Header(Some(size)) => {
                    if size < MIN_HEADER_LEN {
                        self.close();
                        return Some(Err(ParseError));
                    }
                    if self.buffer.len() < size as usize {
                        return None;
                    }
                    let raw = self.take_front(size as usize);
                    let header = parse_ip_header(raw.as_slice());
                    if header.total_length >= size as u16 {
                        self.current_header = Some((header, raw));
                        self.current_state = CurrentState::Data(header.total_length - size as u16);
                    }
                },
                CurrentState::Data(need) => {
                    if self.buffer.len() < need as usize {
                        return None;
                    }
                    let data = self.take_front(need as usize);
                    self.current_state = CurrentState::Header(None);
                    let mut retained: Option<(IpHeader, Vec<u8>)> = None;
                    std::mem::swap(&mut self.current_header, &mut retained);
                    match retained {
                        Some((header, header_data)) => {
                            return Some(Ok(IpPacket { header, header_data, data }));
                        },
                        // Not reached: a header is retained whenever a payload is awaited.
                        None => {
                            return None;
                        },
                    }
                },
            }
        }
    }

    /// Reacts to an event: takes in the chunk, if there is one, and says what
    /// to do next.
    ///
    /// Every complete packet in the buffer is yielded before another read is
    /// asked for. After a failed read, or a header shorter than 20 bytes, the
    /// error is yielded once and the sequence has ended.
    pub fn next(&mut self, event: SourceEvent) -> (action: StreamAction)
        ensures
            final(self)@ == old(self)@.next(event@).0,
            action@ == old(self)@.next(event@).1,
            final(self)@.wf(),
            action matches StreamAction::Yield(Ok(packet)) ==> packet@.wf(),
    {
        proof {
            use_type_invariant(&*self);
        }
        if self.closed {
            return StreamAction::Done;
        }
        match event {
            SourceEvent::ReadFailed => {
                self.close();
                return StreamAction::Yield(Err(ParseError));
            },
            SourceEvent::Resume => {},
            SourceEvent::Chunk(bytes) => {
                self.feed(bytes.as_slice());
            },
        }
        match self.try_take_packet() {
            None => StreamAction::Read,
            Some(item) => StreamAction::Yield(item),
        }
    }
}

} // verus!

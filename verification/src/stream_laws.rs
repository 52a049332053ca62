//! What holds of the reassembler whatever the bytes and however they are cut
//! into chunks.

use crate::packet::PacketView;
use crate::parse::{ActionView, CurrentState, EventView, ParseError, Poll, Step, StreamView};
use vstd::prelude::*;

verus! {

/// The items that a reassembler yields, in order.
pub type Items = Seq<Result<PacketView, ParseError>>;

/// Every packet of `packets` as a successful item.
pub open spec fn oks(packets: Seq<PacketView>) -> Items {
    Seq::new(packets.len(), |i: int| Ok(packets[i]))
}

/// The bytes of `packets` on the wire, one datagram after the other.
pub open spec fn stream_of(packets: Seq<PacketView>) -> Seq<u8>
    decreases packets.len(),
{
    if packets.len() == 0 {
        Seq::empty()
    } else {
        packets[0].datagram() + stream_of(packets.drop_first())
    }
}

/// The chunks of `chunks` joined into one byte sequence.
pub open spec fn joined(chunks: Seq<Seq<u8>>) -> Seq<u8>
    decreases chunks.len(),
{
    if chunks.len() == 0 {
        Seq::empty()
    } else {
        joined(chunks.drop_last()) + chunks.last()
    }
}

/// Polls until nothing more can be taken from the buffer: the state reached
/// and the items found on the way.
pub open spec fn drain(v: StreamView) -> (StreamView, Items)
    decreases v.rank(),
    via drain_decreases
{
    match v.poll() {
        (rest, Poll::Pending) => (rest, Seq::empty()),
        (rest, Poll::Packet(packet)) => {
            let (last, items) = drain(rest);
            (last, seq![Ok(packet)] + items)
        },
        (rest, Poll::Malformed) => (rest, seq![Err(ParseError)]),
    }
}

#[via_fn]
proof fn drain_decreases(v: StreamView) {
    lemma_poll_lowers_rank(v);
}

/// Drains what is buffered, then takes in the chunks one by one and drains
/// after each: the state reached and all items, in order.
pub open spec fn run(v: StreamView, chunks: Seq<Seq<u8>>) -> (StreamView, Items)
    decreases chunks.len(),
{
    if chunks.len() == 0 {
        drain(v)
    } else {
        let (before, first) = run(v, chunks.drop_last());
        let (after, second) = drain(before.feed(chunks.last()));
        (after, first + second)
    }
}

/// A poll that finds a packet leaves a state of lower rank, and one that
/// finds a header too short ends the sequence.
pub proof fn lemma_poll_lowers_rank(v: StreamView)
    ensures
        v.poll().1 is Packet ==> v.poll().0.rank() < v.rank(),
        v.poll().1 is Pending ==> v.poll().0.rank() <= v.rank(),
        v.poll().1 is Malformed ==> v.poll().0 == StreamView::ended(),
    decreases v.rank(),
{
    match v.step() {
        Step::Move(next) => {
            lemma_poll_lowers_rank(next);
        },
        _ => {},
    }
}

/// A poll stops for want of bytes only: where it finds nothing, the buffer
/// holds less than the state reached needs, so no byte is kept that could
/// have been consumed.
pub proof fn lemma_poll_stops_at_rest(v: StreamView)
    ensures
        v.poll().1 is Pending ==> v.poll().0.step() is Wait,
    decreases v.rank(),
{
    match v.step() {
        Step::Move(next) => {
            lemma_poll_stops_at_rest(next);
        },
        _ => {},
    }
}

/// A well-formed state polls to a well-formed state, and the packet found,
/// if there is one, is well-formed.
pub proof fn lemma_poll_keeps_wf(v: StreamView)
    requires
        v.wf(),
    ensures
        v.poll().0.wf(),
        v.poll().1 matches Poll::Packet(packet) ==> packet.wf(),
    decreases v.rank(),
{
    match v.step() {
        Step::Move(next) => {
            lemma_poll_keeps_wf(next);
        },
        _ => {},
    }
}

/// Whatever the event, a well-formed state reacts with a well-formed state,
/// and the packet yielded, if there is one, is well-formed.
pub proof fn lemma_next_keeps_wf(v: StreamView, event: EventView)
    requires
        v.wf(),
    ensures
        v.next(event).0.wf(),
        v.next(event).1 matches ActionView::Yield(Ok(packet)) ==> packet.wf(),
{
    lemma_poll_keeps_wf(v);
    if let EventView::Chunk(bytes) = event {
        lemma_poll_keeps_wf(v.feed(bytes));
    }
}

/// An error is the last item: the state it leaves is the ended one, which
/// answers every event with `Done` and does not change.
pub proof fn lemma_error_ends_sequence(v: StreamView, event: EventView, later: EventView)
    requires
        v.next(event).1 matches ActionView::Yield(Err(_)),
    ensures
        v.next(event).0 == StreamView::ended(),
        StreamView::ended().next(later) == (StreamView::ended(), ActionView::Done),
{
    lemma_poll_lowers_rank(v);
    if let EventView::Chunk(bytes) = event {
        lemma_poll_lowers_rank(v.feed(bytes));
    }
}

/// A transition looks only at bytes that are there: bytes that arrive later
/// do not change it.
pub proof fn lemma_step_ignores_later_bytes(v: StreamView, later: Seq<u8>)
    ensures
        match v.step() {
            Step::Wait => true,
            Step::Move(next) => v.feed(later).step() == Step::Move(next.feed(later)),
            Step::Emit(next, packet) => v.feed(later).step() == Step::Emit(
                next.feed(later),
                packet,
            ),
            Step::Fail => v.feed(later).step() == Step::Fail,
        },
{
    if !v.closed {
        let w = v.feed(later);
        match v.state {
            CurrentState::Header(None) => {},
            CurrentState::Header(Some(size)) => {
                if size >= 20 && v.buffer.len() >= size {
                    assert(w.buffer.take(size as int) =~= v.buffer.take(size as int));
                    assert(w.buffer.skip(size as int) =~= v.buffer.skip(size as int) + later);
                }
            },
            CurrentState::Data(need) => {
                if v.buffer.len() >= need {
                    assert(w.buffer.take(need as int) =~= v.buffer.take(need as int));
                    assert(w.buffer.skip(need as int) =~= v.buffer.skip(need as int) + later);
                }
            },
        }
    }
}

/// What a poll finds does not depend on the bytes behind it, and a poll
/// that stops for want of bytes goes on from where it stopped.
pub proof fn lemma_poll_ignores_later_bytes(v: StreamView, later: Seq<u8>)
    ensures
        match v.poll() {
            (rest, Poll::Pending) => v.feed(later).poll() == rest.feed(later).poll(),
            (rest, Poll::Packet(packet)) => v.feed(later).poll() == (
                rest.feed(later),
                Poll::Packet(packet),
            ),
            (_, Poll::Malformed) => v.feed(later).poll() == (
                StreamView::ended(),
                Poll::Malformed,
            ),
        },
    decreases v.rank(),
{
    lemma_step_ignores_later_bytes(v, later);
    match v.step() {
        Step::Move(next) => {
            lemma_poll_ignores_later_bytes(next, later);
        },
        _ => {},
    }
}

/// Draining after more bytes have arrived gives what draining before and
/// after their arrival gives.
pub proof fn lemma_drain_in_two(v: StreamView, later: Seq<u8>)
    ensures
        drain(v.feed(later)) == (
            drain(drain(v).0.feed(later)).0,
            drain(v).1 + drain(drain(v).0.feed(later)).1,
        ),
    decreases v.rank(),
{
    lemma_poll_ignores_later_bytes(v, later);
    lemma_poll_lowers_rank(v);
    match v.poll() {
        (rest, Poll::Pending) => {
            assert(drain(v) == (rest, Seq::<Result<PacketView, ParseError>>::empty()));
            assert(drain(v.feed(later)) == drain(rest.feed(later)));
            assert(drain(v).1 + drain(rest.feed(later)).1 =~= drain(rest.feed(later)).1);
        },
        (rest, Poll::Packet(packet)) => {
            lemma_drain_in_two(rest, later);
            let head = seq![Ok::<PacketView, ParseError>(packet)];
            assert(drain(v).1 == head + drain(rest).1);
            assert(drain(v.feed(later)).1 == head + drain(rest.feed(later)).1);
            assert((head + drain(rest).1) + drain(drain(rest).0.feed(later)).1 =~= head + (drain(
                rest,
            ).1 + drain(drain(rest).0.feed(later)).1));
        },
        (rest, Poll::Malformed) => {
            assert(rest == StreamView::ended());
            assert(rest.feed(later) == rest);
            assert(drain(v).1 + drain(rest).1 =~= drain(v).1);
        },
    }
}

/// Chunk boundaries do not matter: taking in the chunks one by one yields
/// what taking in all their bytes at once yields, and leaves the same state.
pub proof fn lemma_run_is_drain_of_joined(v: StreamView, chunks: Seq<Seq<u8>>)
    ensures
        run(v, chunks) == drain(v.feed(joined(chunks))),
    decreases chunks.len(),
{
    if chunks.len() == 0 {
        assert(v.feed(joined(chunks)).buffer =~= v.buffer);
        assert(v.feed(joined(chunks)) == v);
    } else {
        let front = chunks.drop_last();
        lemma_run_is_drain_of_joined(v, front);
        let u = v.feed(joined(front));
        lemma_drain_in_two(u, chunks.last());
        assert(u.feed(chunks.last()).buffer =~= v.feed(joined(chunks)).buffer);
        assert(u.feed(chunks.last()) == v.feed(joined(chunks)));
    }
}

/// Two ways of cutting the same bytes into chunks yield the same items in
/// the same order, and leave the same state.
pub proof fn lemma_chunking_is_irrelevant(v: StreamView, one: Seq<Seq<u8>>, other: Seq<Seq<u8>>)
    requires
        joined(one) == joined(other),
    ensures
        run(v, one) == run(v, other),
{
    lemma_run_is_drain_of_joined(v, one);
    lemma_run_is_drain_of_joined(v, other);
}

/// A reassembler that awaits a header and has `bytes` buffered.
pub open spec fn holding(bytes: Seq<u8>) -> StreamView {
    StreamView { buffer: bytes, ..StreamView::fresh() }
}

/// A conformant datagram at the head of the buffer comes out as it went in,
/// whatever follows it, and what follows it stays buffered.
pub proof fn lemma_poll_finds_datagram(packet: PacketView, later: Seq<u8>)
    requires
        packet.conformant(),
    ensures
        holding(packet.datagram() + later).poll() == (holding(later), Poll::Packet(packet)),
{
    let size = packet.header_data.len() as int;
    let need = packet.data.len() as int;
    let v0 = holding(packet.datagram() + later);
    assert(v0.buffer[0] == packet.header_data[0]);
    let v1 = v0.step()->Move_0;
    assert(v0.step() is Move);
    assert(v1.state == CurrentState::Header(Some(size as u8)));
    assert(v1.buffer.take(size) =~= packet.header_data);
    assert(v1.buffer.skip(size) =~= packet.data + later);
    let v2 = v1.step()->Move_0;
    assert(v1.step() is Move);
    assert(v2.state == CurrentState::Data(need as u16));
    assert(v2.retained == packet.header_data);
    assert(v2.buffer.take(need) =~= packet.data);
    assert(v2.buffer.skip(need) =~= later);
    assert(v2.step() == Step::Emit(holding(later), packet));
    assert(v2.poll() == (holding(later), Poll::Packet(packet)));
    assert(v1.poll() == v2.poll());
    assert(v0.poll() == v1.poll());
}

/// The bytes of conformant packets, one after the other, are reassembled
/// into those packets, in that order, and nothing is left over.
pub proof fn lemma_drain_finds_all(packets: Seq<PacketView>)
    requires
        forall|i: int| 0 <= i < packets.len() ==> (#[trigger] packets[i]).conformant(),
    ensures
        drain(holding(stream_of(packets))) == (StreamView::fresh(), oks(packets)),
    decreases packets.len(),
{
    if packets.len() == 0 {
        assert(holding(stream_of(packets)) == StreamView::fresh());
        assert(oks(packets) =~= Seq::empty());
    } else {
        let tail = packets.drop_first();
        assert forall|i: int| 0 <= i < tail.len() implies (#[trigger] tail[i]).conformant() by {
            assert(tail[i] == packets[i + 1]);
        }
        lemma_poll_finds_datagram(packets[0], stream_of(tail));
        lemma_drain_finds_all(tail);
        assert(oks(packets) =~= seq![Ok::<PacketView, ParseError>(packets[0])] + oks(tail));
    }
}

/// However the bytes of conformant packets are cut into chunks, a new
/// reassembler yields exactly those packets, in order, and ends as it began.
pub proof fn lemma_any_chunking_finds_all(packets: Seq<PacketView>, chunks: Seq<Seq<u8>>)
    requires
        forall|i: int| 0 <= i < packets.len() ==> (#[trigger] packets[i]).conformant(),
        joined(chunks) == stream_of(packets),
    ensures
        run(StreamView::fresh(), chunks) == (StreamView::fresh(), oks(packets)),
{
    lemma_run_is_drain_of_joined(StreamView::fresh(), chunks);
    lemma_drain_finds_all(packets);
    assert(StreamView::fresh().feed(joined(chunks)).buffer =~= stream_of(packets));
    assert(StreamView::fresh().feed(joined(chunks)) == holding(stream_of(packets)));
}

/// A header whose total length is its own length is a complete packet: the
/// chunk that completes it is answered with the packet, its payload empty,
/// and not with a request for more bytes.
pub proof fn lemma_header_only_packet_is_complete(packet: PacketView)
    requires
        packet.conformant(),
        packet.header.total_length == packet.header.header_length,
    ensures
        packet.data == Seq::<u8>::empty(),
        StreamView::fresh().next(EventView::Chunk(packet.header_data)) == (
            StreamView::fresh(),
            ActionView::Yield(Ok(packet)),
        ),
{
    assert(packet.data =~= Seq::<u8>::empty());
    lemma_poll_finds_datagram(packet, Seq::empty());
    assert(packet.datagram() + Seq::<u8>::empty() =~= packet.header_data);
    assert(StreamView::fresh().feed(packet.header_data).buffer =~= packet.header_data);
    assert(StreamView::fresh().feed(packet.header_data) == holding(packet.header_data));
    assert(holding(Seq::empty()) == StreamView::fresh());
}

/// When one chunk holds two whole packets, both are yielded before another
/// read is asked for.
pub proof fn lemma_batched_packets_do_not_stall(first: PacketView, second: PacketView)
    requires
        first.conformant(),
        second.conformant(),
    ensures
        ({
            let chunk = first.datagram() + second.datagram();
            let (s1, a1) = StreamView::fresh().next(EventView::Chunk(chunk));
            let (s2, a2) = s1.next(EventView::Resume);
            let (s3, a3) = s2.next(EventView::Resume);
            &&& a1 == ActionView::Yield(Ok(first))
            &&& a2 == ActionView::Yield(Ok(second))
            &&& a3 == ActionView::Read
            &&& s3 == StreamView::fresh()
        }),
{
    let chunk = first.datagram() + second.datagram();
    lemma_poll_finds_datagram(first, second.datagram());
    lemma_poll_finds_datagram(second, Seq::empty());
    assert(StreamView::fresh().feed(chunk).buffer =~= chunk);
    assert(StreamView::fresh().feed(chunk) == holding(chunk));
    assert(second.datagram() + Seq::<u8>::empty() =~= second.datagram());
    assert(holding(Seq::empty()) == StreamView::fresh());
}

} // verus!

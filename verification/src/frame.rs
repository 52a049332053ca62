//! The wire format: a 2-byte big-endian length, then that many bytes of
//! datagram.

use crate::error::TunnelError;
use crate::packet::{be16, read_be16, IpPacket, PacketView};
use vstd::prelude::*;

verus! {

/// The most bytes that a frame can carry.
pub const MAX_DATAGRAM_LEN: usize = 65535;

/// The bytes of the length field.
pub const LENGTH_FIELD_LEN: usize = 2;

/// The frame that carries `datagram`.
pub open spec fn frame_of(datagram: Seq<u8>) -> Seq<u8>
    recommends
        datagram.len() <= MAX_DATAGRAM_LEN,
{
    seq![(datagram.len() / 256) as u8, (datagram.len() % 256) as u8] + datagram
}

/// The number of datagram bytes that the length field of `bytes`
/// declares.
pub open spec fn declared_len(bytes: Seq<u8>) -> int
    recommends
        bytes.len() >= LENGTH_FIELD_LEN,
{
    be16(bytes[0], bytes[1]) as int
}

/// What decoding makes of `bytes`, all that arrived before the connection
/// closed: the datagram of the first frame, or the reason why there is
/// none.
pub open spec fn datagram_of(bytes: Seq<u8>) -> Result<Seq<u8>, TunnelError> {
    if bytes.len() < LENGTH_FIELD_LEN {
        Err(TunnelError::TransportReadError)
    } else if bytes.len() - LENGTH_FIELD_LEN < declared_len(bytes) {
        Err(TunnelError::TruncatedFrame)
    } else {
        Ok(bytes.subrange(LENGTH_FIELD_LEN as int, LENGTH_FIELD_LEN + declared_len(bytes)))
    }
}

/// Encodes a packet as one frame: the length of header and payload
/// together, then the header bytes as received, then the payload.
pub fn encode_frame(packet: &IpPacket) -> (frame: Vec<u8>)
    requires
        packet@.datagram().len() <= MAX_DATAGRAM_LEN,
    ensures
        frame@ == frame_of(packet@.datagram()),
{
    let len: usize = packet.header_data.len() + packet.data.len();
    let mut frame: Vec<u8> = Vec::with_capacity(len + LENGTH_FIELD_LEN);
    frame.push((len / 256) as u8);
    frame.push((len % 256) as u8);
    frame.extend_from_slice(packet.header_data.as_slice());
    frame.extend_from_slice(packet.data.as_slice());
    assert(frame@ =~= frame_of(packet@.datagram()));
    frame
}

/// Decodes the first frame of `bytes`, where `bytes` is all that arrived
/// before the connection closed.
///
/// A frame is never returned short: if fewer bytes follow the length field
/// than it declares, the result is `TruncatedFrame`.
pub fn decode_frame(bytes: &[u8]) -> (decoded: Result<Vec<u8>, TunnelError>)
    ensures
        match decoded {
            Ok(datagram) => datagram_of(bytes@) == Ok::<Seq<u8>, TunnelError>(datagram@),
            Err(e) => datagram_of(bytes@) == Err::<Seq<u8>, TunnelError>(e),
        },
{
    if bytes.len() < LENGTH_FIELD_LEN {
        return Err(TunnelError::TransportReadError);
    }
    let declared: usize = read_be16(bytes[0], bytes[1]) as usize;
    if bytes.len() - LENGTH_FIELD_LEN < declared {
        return Err(TunnelError::TruncatedFrame);
    }
    let body = vstd::slice::slice_subrange(bytes, LENGTH_FIELD_LEN, LENGTH_FIELD_LEN + declared);
    Ok(vstd::slice::slice_to_vec(body))
}

/// Decoding a frame gives back the datagram that was encoded, whatever
/// follows the frame.
pub proof fn lemma_frame_round_trip(datagram: Seq<u8>, later: Seq<u8>)
    requires
        datagram.len() <= MAX_DATAGRAM_LEN,
    ensures
        datagram_of(frame_of(datagram) + later) == Ok::<Seq<u8>, TunnelError>(datagram),
        datagram_of(frame_of(datagram)) == Ok::<Seq<u8>, TunnelError>(datagram),
{
    let frame = frame_of(datagram);
    assert(declared_len(frame) == datagram.len());
    assert(declared_len(frame + later) == datagram.len());
    let end = 2 + datagram.len() as int;
    assert(frame.subrange(2, end) =~= datagram);
    assert((frame + later).subrange(2, end) =~= datagram);
}

/// A packet as the reassembler emits it survives framing: decoding its
/// frame gives its header bytes followed by its payload.
pub proof fn lemma_packet_round_trip(packet: PacketView)
    requires
        packet.wf(),
    ensures
        datagram_of(frame_of(packet.datagram())) == Ok::<Seq<u8>, TunnelError>(
            packet.header_data + packet.data,
        ),
{
    lemma_frame_round_trip(packet.datagram(), Seq::empty());
}

/// A frame that was cut short behind its length field is never decoded.
pub proof fn lemma_cut_frame_is_truncated(datagram: Seq<u8>, kept: int)
    requires
        datagram.len() <= MAX_DATAGRAM_LEN,
        LENGTH_FIELD_LEN <= kept < frame_of(datagram).len(),
    ensures
        datagram_of(frame_of(datagram).take(kept)) == Err::<Seq<u8>, TunnelError>(
            TunnelError::TruncatedFrame,
        ),
{
    let frame = frame_of(datagram);
    assert(declared_len(frame.take(kept)) == datagram.len());
}

} // verus!

use private_tunnel::error::TunnelError;
use private_tunnel::frame::{decode_frame, encode_frame, LENGTH_FIELD_LEN, MAX_DATAGRAM_LEN};
use private_tunnel::packet::IpPacket;
use private_tunnel::parse::{parse_ip_header, IPStream, SourceEvent, StreamAction};

const EXAMPLE: [u8; 28] = [
    0x45, 0x00, 0x00, 0x1C, 0x00, 0x01, 0x00, 0x00, 0x40, 0x11, 0x00, 0x00, 0x0A, 0x00, 0x00, 0x01,
    0x0A, 0x00, 0x00, 0x02, 0x01, 0x02, 0x03, 0x04, 0x05, 0x06, 0x07, 0x08,
];

fn packet_of(header_data: Vec<u8>, data: Vec<u8>) -> IpPacket {
    IpPacket { header: parse_ip_header(&header_data), header_data, data }
}

fn example_packet() -> IpPacket {
    let mut stream = IPStream::new();
    match stream.next(SourceEvent::Chunk(EXAMPLE.to_vec())) {
        StreamAction::Yield(Ok(packet)) => packet,
        other => panic!("expected a packet, got {:?}", other),
    }
}

fn sized_packet(header_len: usize, payload_len: usize) -> IpPacket {
    let total = header_len + payload_len;
    let mut header_data = vec![0u8; header_len];
    header_data[0] = 0x40 | (header_len / 4) as u8;
    header_data[2..4].copy_from_slice(&(total as u16).to_be_bytes());
    let data: Vec<u8> = (0..payload_len).map(|i| (i % 251) as u8).collect();
    packet_of(header_data, data)
}

#[test]
fn frame_of_the_example() {
    let frame = encode_frame(&example_packet());
    assert_eq!(frame.len(), 30);
    assert_eq!(frame[..2], [0x00, 0x1C]);
    assert_eq!(frame[2..], EXAMPLE);
}

#[test]
fn length_field_is_big_endian() {
    let packet = sized_packet(20, 300 - 20);
    let frame = encode_frame(&packet);
    assert_eq!(frame[..2], [0x01, 0x2C]);
    assert_eq!(frame[..2], 300u16.to_be_bytes());
    assert_eq!(frame.len(), 302);
}

#[test]
fn length_field_counts_the_bytes_not_the_header_field() {
    let mut header_data = EXAMPLE[..20].to_vec();
    header_data[2] = 0x12;
    header_data[3] = 0x34;
    let packet = packet_of(header_data.clone(), vec![9, 9, 9]);
    let frame = encode_frame(&packet);
    assert_eq!(frame[..2], [0, 23]);
    assert_eq!(frame[2..22], header_data[..]);
    assert_eq!(frame[22..], [9, 9, 9]);
}

#[test]
fn decode_gives_back_what_was_encoded() {
    for (header_len, payload_len) in [(20, 0), (20, 8), (24, 1), (60, 0), (60, 1000), (20, 236)] {
        let packet = sized_packet(header_len, payload_len);
        let frame = encode_frame(&packet);
        let mut datagram = packet.header_data.clone();
        datagram.extend_from_slice(&packet.data);
        assert_eq!(decode_frame(&frame), Ok(datagram));
    }
}

#[test]
fn largest_frame_round_trips() {
    let packet = sized_packet(60, MAX_DATAGRAM_LEN - 60);
    let frame = encode_frame(&packet);
    assert_eq!(frame.len(), MAX_DATAGRAM_LEN + LENGTH_FIELD_LEN);
    assert_eq!(frame[..2], [0xFF, 0xFF]);
    let datagram = decode_frame(&frame).expect("complete");
    assert_eq!(datagram.len(), MAX_DATAGRAM_LEN);
    assert_eq!(datagram[..60], packet.header_data[..]);
    assert_eq!(datagram[60..], packet.data[..]);
}

#[test]
fn decode_ignores_what_follows_the_frame() {
    let mut bytes = encode_frame(&example_packet());
    bytes.extend_from_slice(&[0x00, 0x05, 1, 2]);
    assert_eq!(decode_frame(&bytes), Ok(EXAMPLE.to_vec()));
}

#[test]
fn decode_of_an_empty_frame() {
    assert_eq!(decode_frame(&[0, 0]), Ok(Vec::new()));
    assert_eq!(decode_frame(&[0, 0, 7]), Ok(Vec::new()));
}

#[test]
fn truncated_frame_is_never_decoded() {
    let frame = encode_frame(&example_packet());
    for kept in LENGTH_FIELD_LEN..frame.len() {
        assert_eq!(decode_frame(&frame[..kept]), Err(TunnelError::TruncatedFrame), "{}", kept);
    }
    assert_eq!(decode_frame(&[0x00, 0x03, 1, 2]), Err(TunnelError::TruncatedFrame));
    assert_eq!(decode_frame(&[0xFF, 0xFF]), Err(TunnelError::TruncatedFrame));
}

#[test]
fn missing_length_field_is_a_read_error() {
    assert_eq!(decode_frame(&[]), Err(TunnelError::TransportReadError));
    assert_eq!(decode_frame(&[0x00]), Err(TunnelError::TransportReadError));
    assert_eq!(decode_frame(&[0x1C]), Err(TunnelError::TransportReadError));
}

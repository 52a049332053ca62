use vstd::prelude::*;

verus! {

/// The fields of an IPv4 header, decoded.
///
/// `header_length` and `total_length` are in bytes. Nothing is validated:
/// the fields are what the bytes say.
#[derive(Debug, Clone, Copy, PartialEq, Eq)]
pub struct IpHeader {
    pub version: u8,
    pub header_length: u8,
    pub total_length: u16,
    pub identification: u16,
    pub flags: u8,
    pub fragment_offset: u16,
    pub time_to_live: u8,
    pub protocol: u8,
    pub header_checksum: u16,
    pub source: [u8; 4],
    pub destination: [u8; 4],
}

/// A complete datagram: the decoded header, the header bytes exactly as they
/// arrived (options included), and the payload.
#[derive(Debug, Clone, PartialEq, Eq)]
pub struct IpPacket {
    pub header: IpHeader,
    pub header_data: Vec<u8>,
    pub data: Vec<u8>,
}

/// The mathematical content of an [`IpPacket`].
pub struct PacketView {
    pub header: IpHeader,
    pub header_data: Seq<u8>,
    pub data: Seq<u8>,
}

impl View for IpPacket {
    type V = PacketView;

    open spec fn view(&self) -> PacketView {
        PacketView { header: self.header, header_data: self.header_data@, data: self.data@ }
    }
}

/// The smallest header that carries every fixed field.
pub const MIN_HEADER_LEN: u8 = 20;

/// The largest header that the 4-bit length field can announce.
pub const MAX_HEADER_LEN: u8 = 60;

/// The 16-bit number whose big-endian bytes are `hi`, `lo`.
pub open spec fn be16(hi: u8, lo: u8) -> u16 {
    (hi as int * 256 + lo as int) as u16
}

/// The header length in bytes that a header's first byte announces:
/// four times its low nibble.
pub open spec fn announced_header_len(first: u8) -> u8 {
    ((first as int % 16) * 4) as u8
}

/// The header that the first 20 bytes of `bytes` encode.
pub open spec fn header_of(bytes: Seq<u8>) -> IpHeader
    recommends
        bytes.len() >= 20,
{
    IpHeader {
        version: (bytes[0] as int / 16) as u8,
        header_length: announced_header_len(bytes[0]),
        total_length: be16(bytes[2], bytes[3]),
        identification: be16(bytes[4], bytes[5]),
        flags: (bytes[6] as int / 32) as u8,
        fragment_offset: be16((bytes[6] as int % 32) as u8, bytes[7]),
        time_to_live: bytes[8],
        protocol: bytes[9],
        header_checksum: be16(bytes[10], bytes[11]),
        source: [bytes[12], bytes[13], bytes[14], bytes[15]],
        destination: [bytes[16], bytes[17], bytes[18], bytes[19]],
    }
}

impl PacketView {
    /// The bytes of the datagram: the header as received, then the payload.
    pub open spec fn datagram(self) -> Seq<u8> {
        self.header_data + self.data
    }

    /// What holds of every packet that the reassembler emits: the header was
    /// decoded from the retained bytes, and its total length is the number of
    /// bytes the packet holds.
    pub open spec fn wf(self) -> bool {
        &&& MIN_HEADER_LEN <= self.header_data.len() <= MAX_HEADER_LEN
        &&& self.header == header_of(self.header_data)
        &&& self.header.total_length == self.header_data.len() + self.data.len()
    }

    /// A well-formed packet whose header is as long as its first byte says.
    pub open spec fn conformant(self) -> bool {
        &&& self.wf()
        &&& self.header.header_length == self.header_data.len()
    }
}

/// Reads a big-endian 16-bit number.
pub fn read_be16(hi: u8, lo: u8) -> (r: u16)
    ensures
        r == be16(hi, lo),
{
    hi as u16 * 256 + lo as u16
}

} // verus!

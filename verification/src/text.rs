//! Human-readable dumps of headers and packets.

use crate::packet::{IpHeader, IpPacket};
use crate::parse::ParseError;
use vstd::prelude::*;

verus! {

/// The character of a decimal digit.
pub open spec fn digit(d: nat) -> char
    recommends
        d < 10,
{
    "0123456789"@[d as int]
}

/// A number in decimal, without leading zeros.
pub open spec fn decimal(n: nat) -> Seq<char>
    decreases n,
{
    if n < 10 {
        seq![digit(n)]
    } else {
        decimal(n / 10).push(digit(n % 10))
    }
}

/// A label, a number and a line feed.
pub open spec fn line(label: Seq<char>, value: nat) -> Seq<char> {
    label + decimal(value) + "\n"@
}

/// An address in dotted decimal.
pub open spec fn dotted(address: [u8; 4]) -> Seq<char> {
    decimal(address[0] as nat) + "."@ + decimal(address[1] as nat) + "."@ + decimal(
        address[2] as nat,
    ) + "."@ + decimal(address[3] as nat)
}

/// Bytes in decimal, separated by a comma and a space.
pub open spec fn listed(bytes: Seq<u8>) -> Seq<char>
    decreases bytes.len(),
{
    if bytes.len() == 0 {
        Seq::empty()
    } else if bytes.len() == 1 {
        decimal(bytes[0] as nat)
    } else {
        listed(bytes.drop_last()) + ", "@ + decimal(bytes.last() as nat)
    }
}

/// The name of an IP protocol number, as far as this library knows names.
pub open spec fn protocol_name_of(protocol: u8) -> Seq<char> {
    match protocol {
        1 => "ICMP"@,
        2 => "IGMP"@,
        3 => "GGP"@,
        4 => "IP in IP"@,
        5 => "IP in IP"@,
        6 => "TCP"@,
        7 => "CBT"@,
        8 => "EGP"@,
        9 => "IGP"@,
        10 => "BBN-RCC"@,
        11 => "NVP-II"@,
        12 => "PUP"@,
        13 => "ARGUS"@,
        14 => "EMCON"@,
        15 => "XNET"@,
        16 => "CHAOS"@,
        17 => "UDP"@,
        18 => "MUX"@,
        19 => "DCN"@,
        20 => "HMP"@,
        21 => "PRM"@,
        22 => "XNS-IDP"@,
        23 => "TRUNK-1"@,
        24 => "TRUNK-2"@,
        25 => "LEAF-1"@,
        26 => "LEAF-2"@,
        27 => "RDP"@,
        28 => "IRTP"@,
        29 => "ISO-TP4"@,
        30 => "NETBLT"@,
        31 => "MFE-NSP"@,
        32 => "MERIT-INP"@,
        33 => "DCCP"@,
        34 => "3PC"@,
        35 => "IDPR"@,
        36 => "XTP"@,
        89 => "OSPF"@,
        132 => "SCTP"@,
        _ => "Unknown Protocol"@,
    }
}

impl IpHeader {
    /// The dump of a header: one line for each field.
    pub open spec fn text(self) -> Seq<char> {
        line("Version: "@, self.version as nat) + line(
            "Header Length: "@,
            self.header_length as nat,
        ) + line("Total Length: "@, self.total_length as nat) + line(
            "Identification: "@,
            self.identification as nat,
        ) + line("Flags: "@, self.flags as nat) + line(
            "Fragment Offset: "@,
            self.fragment_offset as nat,
        ) + line("Time to Live: "@, self.time_to_live as nat) + line(
            "Protocol: "@,
            self.protocol as nat,
        ) + line("Header Checksum: "@, self.header_checksum as nat) + "Source: "@ + dotted(
            self.source,
        ) + "\n"@ + "Destination: "@ + dotted(self.destination) + "\n"@
    }
}

/// The name of an IP protocol number.
pub fn protocol_name(protocol: u8) -> (name: &'static str)
    ensures
        name@ == protocol_name_of(protocol),
{
    match protocol {
        1 => "ICMP",
        2 => "IGMP",
        3 => "GGP",
        4 => "IP in IP",
        5 => "IP in IP",
        6 => "TCP",
        7 => "CBT",
        8 => "EGP",
        9 => "IGP",
        10 => "BBN-RCC",
        11 => "NVP-II",
        12 => "PUP",
        13 => "ARGUS",
        14 => "EMCON",
        15 => "XNET",
        16 => "CHAOS",
        17 => "UDP",
        18 => "MUX",
        19 => "DCN",
        20 => "HMP",
        21 => "PRM",
        22 => "XNS-IDP",
        23 => "TRUNK-1",
        24 => "TRUNK-2",
        25 => "LEAF-1",
        26 => "LEAF-2",
        27 => "RDP",
        28 => "IRTP",
        29 => "ISO-TP4",
        30 => "NETBLT",
        31 => "MFE-NSP",
        32 => "MERIT-INP",
        33 => "DCCP",
        34 => "3PC",
        35 => "IDPR",
        36 => "XTP",
        89 => "OSPF",
        132 => "SCTP",
        _ => "Unknown Protocol",
    }
}

/// The text of one decimal digit.
fn digit_text(d: u16) -> (text: &'static str)
    requires
        d < 10,
    ensures
        text@ == seq![digit(d as nat)],
{
    proof {
        reveal_strlit("0123456789");
        reveal_strlit("0");
        reveal_strlit("1");
        reveal_strlit("2");
        reveal_strlit("3");
        reveal_strlit("4");
        reveal_strlit("5");
        reveal_strlit("6");
        reveal_strlit("7");
        reveal_strlit("8");
        reveal_strlit("9");
    }
    let text = match d {
        0 => "0",
        1 => "1",
        2 => "2",
        3 => "3",
        4 => "4",
        5 => "5",
        6 => "6",
        7 => "7",
        8 => "8",
        _ => "9",
    };
    assert(text@ =~= seq![digit(d as nat)]);
    text
}

/// Appends a number in decimal.
fn push_decimal(out: &mut String, n: u16)
    ensures
        final(out)@ == old(out)@ + decimal(n as nat),
    decreases n,
{
    if n >= 10 {
        push_decimal(out, n / 10);
    }
    out.append(digit_text(n % 10));
    assert(out@ =~= old(out)@ + decimal(n as nat));
}

/// Appends a label, a number and a line feed.
fn push_line(out: &mut String, label: &str, value: u16)
    ensures
        final(out)@ == old(out)@ + line(label@, value as nat),
{
    out.append(label);
    push_decimal(out, value);
    out.append("\n");
    assert(out@ =~= old(out)@ + line(label@, value as nat));
}

/// Appends an address in dotted decimal.
fn push_dotted(out: &mut String, address: &[u8; 4])
    ensures
        final(out)@ == old(out)@ + dotted(*address),
{
    push_decimal(out, address[0] as u16);
    out.append(".");
    push_decimal(out, address[1] as u16);
    out.append(".");
    push_decimal(out, address[2] as u16);
    out.append(".");
    push_decimal(out, address[3] as u16);
    assert(out@ =~= old(out)@ + dotted(*address));
}

/// Appends bytes in decimal, separated by a comma and a space.
fn push_listed(out: &mut String, bytes: &Vec<u8>)
    ensures
        final(out)@ == old(out)@ + listed(bytes@),
{
    let mut i: usize = 0;
    while i < bytes.len()
        invariant
            i <= bytes.len(),
            out@ == old(out)@ + listed(bytes@.take(i as int)),
        decreases bytes.len() - i,
    {
        let ghost before = out@;
        if i > 0 {
            out.append(", ");
        }
        push_decimal(out, bytes[i] as u16);
        proof {
            let now = bytes@.take(i + 1);
            assert(now.drop_last() =~= bytes@.take(i as int));
            assert(now.last() == bytes[i as int]);
            assert(out@ =~= old(out)@ + listed(now));
        }
        i += 1;
    }
    assert(bytes@.take(i as int) =~= bytes@);
}

impl IpHeader {
    /// Dumps the header: one line for each field, numbers in decimal,
    /// addresses in dotted decimal.
    pub fn to_string(&self) -> (text: String)
        ensures
            text@ == self.text(),
    {
        let mut out = String::new();
        push_line(&mut out, "Version: ", self.version as u16);
        push_line(&mut out, "Header Length: ", self.header_length as u16);
        push_line(&mut out, "Total Length: ", self.total_length);
        push_line(&mut out, "Identification: ", self.identification);
        push_line(&mut out, "Flags: ", self.flags as u16);
        push_line(&mut out, "Fragment Offset: ", self.fragment_offset);
        push_line(&mut out, "Time to Live: ", self.time_to_live as u16);
        push_line(&mut out, "Protocol: ", self.protocol as u16);
        push_line(&mut out, "Header Checksum: ", self.header_checksum);
        out.append("Source: ");
        push_dotted(&mut out, &self.source);
        out.append("\n");
        out.append("Destination: ");
        push_dotted(&mut out, &self.destination);
        out.append("\n");
        assert(out@ =~= self.text());
        out
    }
}

impl IpPacket {
    /// The dump of a packet: the name of its protocol and its payload.
    pub open spec fn text(self) -> Seq<char> {
        "Protocol "@ + protocol_name_of(self.header.protocol) + ", data: ["@ + listed(self.data@)
            + "]\n"@
    }

    /// Dumps the packet: the name of its protocol, then the payload bytes in
    /// decimal between square brackets.
    pub fn to_string(&self) -> (text: String)
        ensures
            text@ == self.text(),
    {
        let mut out = String::new();
        out.append("Protocol ");
        out.append(protocol_name(self.header.protocol));
        out.append(", data: [");
        push_listed(&mut out, &self.data);
        out.append("]\n");
        assert(out@ =~= self.text());
        out
    }
}

impl ParseError {
    /// The text of the error.
    pub fn to_string(&self) -> (text: String)
        ensures
            text@ == "parse Error\n"@,
    {
        String::from_str("parse Error\n")
    }
}

} // verus!

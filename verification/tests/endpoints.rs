use private_tunnel::args::{Args, Mode};
use private_tunnel::endpoint::{
    Originator, OriginatorAction, OriginatorEvent, Responder, ResponderAction, ResponderEvent,
    ResponderState, TunnelEndpoint,
};
use private_tunnel::error::TunnelError;
use private_tunnel::frame::decode_frame;
use private_tunnel::parse::SourceEvent;

const EXAMPLE: [u8; 28] = [
    0x45, 0x00, 0x00, 0x1C, 0x00, 0x01, 0x00, 0x00, 0x40, 0x11, 0x00, 0x00, 0x0A, 0x00, 0x00, 0x01,
    0x0A, 0x00, 0x00, 0x02, 0x01, 0x02, 0x03, 0x04, 0x05, 0x06, 0x07, 0x08,
];

fn example_frame() -> Vec<u8> {
    let mut frame = vec![0x00, 0x1C];
    frame.extend_from_slice(&EXAMPLE);
    frame
}

fn chunk(bytes: &[u8]) -> OriginatorEvent {
    OriginatorEvent::Source(SourceEvent::Chunk(bytes.to_vec()))
}

fn start() -> OriginatorEvent {
    OriginatorEvent::Source(SourceEvent::Resume)
}

#[test]
fn client_mode_originates() {
    let args = Args { mode: Mode::Client { server_ip: String::from("10.0.0.1"), port: 4000 } };
    match TunnelEndpoint::new(&args.mode) {
        TunnelEndpoint::Originator(mut originator) => {
            assert_eq!(originator.step(start()), OriginatorAction::ReadSource);
        }
        TunnelEndpoint::Responder(_) => panic!("a client does not respond"),
    }
}

#[test]
fn server_mode_responds() {
    let args = Args { mode: Mode::Server { bind_ip: String::from("0.0.0.0"), port: 4000 } };
    match TunnelEndpoint::new(&args.mode) {
        TunnelEndpoint::Responder(mut responder) => {
            assert_eq!(responder.state, ResponderState::AwaitingLength);
            assert_eq!(responder.step(ResponderEvent::Started), ResponderAction::Receive(2));
        }
        TunnelEndpoint::Originator(_) => panic!("a server does not originate"),
    }
}

#[test]
fn originator_frames_the_example() {
    let mut originator = Originator::new();
    assert_eq!(originator.step(start()), OriginatorAction::ReadSource);
    assert_eq!(originator.step(chunk(&EXAMPLE[..15])), OriginatorAction::ReadSource);
    assert_eq!(originator.step(chunk(&EXAMPLE[15..])), OriginatorAction::Send(example_frame()));
    assert_eq!(originator.step(OriginatorEvent::Sent), OriginatorAction::ReadSource);
}

#[test]
fn originator_sends_batched_packets_before_reading() {
    let mut both = EXAMPLE.to_vec();
    both.extend_from_slice(&EXAMPLE);
    let mut originator = Originator::new();
    assert_eq!(originator.step(chunk(&both)), OriginatorAction::Send(example_frame()));
    assert_eq!(originator.step(OriginatorEvent::Sent), OriginatorAction::Send(example_frame()));
    assert_eq!(originator.step(OriginatorEvent::Sent), OriginatorAction::ReadSource);
}

#[test]
fn originator_stops_on_a_failed_read() {
    let mut originator = Originator::new();
    assert_eq!(originator.step(chunk(&EXAMPLE[..5])), OriginatorAction::ReadSource);
    assert_eq!(
        originator.step(OriginatorEvent::Source(SourceEvent::ReadFailed)),
        OriginatorAction::Stop(TunnelError::SourceReadError)
    );
    assert_eq!(
        originator.step(chunk(&EXAMPLE)),
        OriginatorAction::Stop(TunnelError::SourceReadError)
    );
}

#[test]
fn originator_stops_on_a_failed_write() {
    let mut originator = Originator::new();
    assert_eq!(originator.step(chunk(&EXAMPLE)), OriginatorAction::Send(example_frame()));
    assert_eq!(
        originator.step(OriginatorEvent::SendFailed),
        OriginatorAction::Stop(TunnelError::TransportWriteError)
    );
    assert_eq!(
        originator.step(OriginatorEvent::Sent),
        OriginatorAction::Stop(TunnelError::TransportWriteError)
    );
}

#[test]
fn originator_stops_on_a_short_header() {
    let mut originator = Originator::new();
    assert_eq!(
        originator.step(chunk(&[0x43, 0, 0, 0])),
        OriginatorAction::Stop(TunnelError::MalformedHeader)
    );
    assert_eq!(originator.step(start()), OriginatorAction::Stop(TunnelError::MalformedHeader));
}

#[test]
fn responder_delivers_the_example() {
    let frame = example_frame();
    let mut responder = Responder::new();
    assert_eq!(responder.step(ResponderEvent::Started), ResponderAction::Receive(2));
    assert_eq!(
        responder.step(ResponderEvent::Received(frame[..2].to_vec())),
        ResponderAction::Receive(28)
    );
    assert_eq!(responder.state, ResponderState::AwaitingBody(28));
    assert_eq!(
        responder.step(ResponderEvent::Received(frame[2..].to_vec())),
        ResponderAction::Deliver(EXAMPLE.to_vec())
    );
    assert_eq!(responder.state, ResponderState::AwaitingLength);
    assert_eq!(responder.step(ResponderEvent::Delivered), ResponderAction::Receive(2));
}

#[test]
fn responder_delivers_an_empty_datagram() {
    let mut responder = Responder::new();
    assert_eq!(
        responder.step(ResponderEvent::Received(vec![0, 0])),
        ResponderAction::Receive(0)
    );
    assert_eq!(
        responder.step(ResponderEvent::Received(Vec::new())),
        ResponderAction::Deliver(Vec::new())
    );
}

#[test]
fn responder_reports_a_truncated_frame() {
    let mut responder = Responder::new();
    responder.step(ResponderEvent::Started);
    assert_eq!(
        responder.step(ResponderEvent::Received(vec![0x00, 0x1C])),
        ResponderAction::Receive(28)
    );
    assert_eq!(
        responder.step(ResponderEvent::ReceiveFailed),
        ResponderAction::Stop(TunnelError::TruncatedFrame)
    );
    assert_eq!(responder.state, ResponderState::Stopped(TunnelError::TruncatedFrame));
    assert_eq!(
        responder.step(ResponderEvent::Received(EXAMPLE.to_vec())),
        ResponderAction::Stop(TunnelError::TruncatedFrame)
    );
}

#[test]
fn responder_never_delivers_short_data() {
    let mut responder = Responder::new();
    responder.step(ResponderEvent::Received(vec![0x00, 0x1C]));
    assert_eq!(
        responder.step(ResponderEvent::Received(EXAMPLE[..27].to_vec())),
        ResponderAction::Stop(TunnelError::TruncatedFrame)
    );
}

#[test]
fn responder_reports_a_closed_connection() {
    let mut responder = Responder::new();
    assert_eq!(responder.step(ResponderEvent::Started), ResponderAction::Receive(2));
    assert_eq!(
        responder.step(ResponderEvent::ReceiveFailed),
        ResponderAction::Stop(TunnelError::TransportReadError)
    );
    let mut responder = Responder::new();
    assert_eq!(
        responder.step(ResponderEvent::Received(vec![0x00])),
        ResponderAction::Stop(TunnelError::TransportReadError)
    );
}

#[test]
fn responder_stops_on_a_failed_delivery() {
    let mut responder = Responder::new();
    responder.step(ResponderEvent::Received(vec![0, 1]));
    assert_eq!(
        responder.step(ResponderEvent::Received(vec![7])),
        ResponderAction::Deliver(vec![7])
    );
    assert_eq!(
        responder.step(ResponderEvent::DeliverFailed),
        ResponderAction::Stop(TunnelError::InterfaceWriteError)
    );
    assert_eq!(
        responder.step(ResponderEvent::Delivered),
        ResponderAction::Stop(TunnelError::InterfaceWriteError)
    );
}

/// Runs a responder against a connection that delivers `bytes` and then
/// closes, up to the first delivery or stop.
fn respond_to(bytes: &[u8]) -> Result<Vec<u8>, TunnelError> {
    let mut responder = Responder::new();
    let mut rest = bytes;
    let mut event = ResponderEvent::Started;
    loop {
        match responder.step(event) {
            ResponderAction::Receive(count) => {
                if rest.len() >= count {
                    event = ResponderEvent::Received(rest[..count].to_vec());
                    rest = &rest[count..];
                } else {
                    event = ResponderEvent::ReceiveFailed;
                }
            }
            ResponderAction::Deliver(datagram) => return Ok(datagram),
            ResponderAction::Stop(reason) => return Err(reason),
        }
    }
}

#[test]
fn responder_agrees_with_decoding() {
    let frame = example_frame();
    for kept in 0..=frame.len() {
        assert_eq!(respond_to(&frame[..kept]), decode_frame(&frame[..kept]), "{}", kept);
    }
    assert_eq!(respond_to(&frame), Ok(EXAMPLE.to_vec()));
}

#[test]
fn what_the_originator_sends_the_responder_delivers() {
    let mut originator = Originator::new();
    let frame = match originator.step(chunk(&EXAMPLE)) {
        OriginatorAction::Send(frame) => frame,
        other => panic!("expected a frame, got {:?}", other),
    };
    assert_eq!(respond_to(&frame), Ok(EXAMPLE.to_vec()));
}

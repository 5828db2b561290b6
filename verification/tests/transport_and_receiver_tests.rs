use smart_picture_frame::encode::ProccessedImage;
use smart_picture_frame::errors::DeliveryError;
use smart_picture_frame::receiver::{
    route_chunk, session_outcome_action, ChunkRouting, DeviceAction, OperatingMode, Panel,
    SessionOutcomeAction, StreamReassembler,
};
use smart_picture_frame::transport::{frame_stream, SendStep, StreamSession, ACK_LEN, CHUNK_SIZE};

#[test]
fn frame_stream_is_left_then_right() {
    let f = ProccessedImage {
        left: vec![1, 2, 3],
        right: vec![4, 5, 6],
    };
    assert_eq!(frame_stream(&f), vec![1, 2, 3, 4, 5, 6]);
}

/// A transport double that records what the sender does: the ack
/// discipline is visible in the recorded event order.
#[test]
fn sender_never_sends_unacknowledged() {
    let total = 2 * CHUNK_SIZE + 200;
    let mut s = StreamSession::new(total);
    let mut events: Vec<&'static str> = Vec::new();

    loop {
        match s.next_step() {
            SendStep::Send(start, end) => {
                assert!(end - start <= CHUNK_SIZE);
                events.push("send");
                s.note_sent();
            }
            SendStep::WaitAck => {
                events.push("ack");
                assert_eq!(s.note_ack(ACK_LEN), Ok(()));
            }
            SendStep::Done => break,
        }
    }
    // Three chunks: 500, 500, 200; one acknowledgment between and after.
    assert_eq!(
        events,
        vec!["send", "ack", "send", "ack", "send", "ack"]
    );
    // Between any two sends there is an ack.
    for w in events.split(|e| *e == "ack") {
        assert!(w.len() <= 1);
    }
}

#[test]
fn sender_chunks_are_bounded_and_exact() {
    let mut s = StreamSession::new(1200);
    assert_eq!(s.next_step(), SendStep::Send(0, 500));
    s.note_sent();
    assert_eq!(s.next_step(), SendStep::WaitAck);
    assert_eq!(s.note_ack(2), Ok(()));
    assert_eq!(s.next_step(), SendStep::Send(500, 1000));
    s.note_sent();
    assert_eq!(s.note_ack(2), Ok(()));
    assert_eq!(s.next_step(), SendStep::Send(1000, 1200));
    s.note_sent();
    assert_eq!(s.note_ack(2), Ok(()));
    assert_eq!(s.next_step(), SendStep::Done);
}

#[test]
fn short_ack_is_a_protocol_violation() {
    let mut s = StreamSession::new(10);
    s.note_sent();
    assert_eq!(s.note_ack(1), Err(DeliveryError::ProtocolViolation));
    // The violation leaves the session still waiting.
    assert_eq!(s.next_step(), SendStep::WaitAck);
    assert_eq!(s.note_ack(ACK_LEN), Ok(()));
    assert_eq!(s.next_step(), SendStep::Done);
}

#[test]
fn routing_covers_the_three_boundary_cases() {
    // Entirely before the half-point.
    assert_eq!(route_chunk(0, 100, 40), ChunkRouting::AllToCurrent);
    // Already past the half-point.
    assert_eq!(route_chunk(150, 100, 40), ChunkRouting::AllToCurrent);
    // Ends exactly on the half-point.
    assert_eq!(route_chunk(60, 100, 40), ChunkRouting::CurrentThenSwitch);
    // Straddles the half-point.
    assert_eq!(route_chunk(80, 100, 40), ChunkRouting::SplitAt(20));
}

#[test]
fn reassembly_reconstructs_for_every_chunk_size() {
    // The boundary-crossing property, swept over every chunk size and
    // so every alignment relative to the boundary.
    let half = 13usize;
    let stream: Vec<u8> = (0..2 * half as u8).collect();
    for c in 1..=stream.len() {
        let mut r = StreamReassembler::new(half);
        for chunk in stream.chunks(c) {
            r.consume(&chunk.to_vec());
        }
        assert_eq!(r.left, stream[..half].to_vec(), "chunk size {}", c);
        assert_eq!(r.right, stream[half..].to_vec(), "chunk size {}", c);
    }
}

#[test]
fn reassembly_switches_panels_at_the_half_point() {
    let mut r = StreamReassembler::new(10);
    assert_eq!(r.current, Panel::Left);
    r.consume(&vec![0; 7]);
    assert_eq!(r.current, Panel::Left);
    // This chunk ends exactly on the boundary: switch for the next one.
    r.consume(&vec![0; 3]);
    assert_eq!(r.current, Panel::Right);
    r.consume(&vec![0; 10]);
    assert_eq!(r.left.len(), 10);
    assert_eq!(r.right.len(), 10);
}

#[test]
fn premature_eof_is_a_protocol_violation() {
    let mut r = StreamReassembler::new(5);
    r.consume(&vec![9; 4]);
    let verdict = r.on_read(&Vec::new());
    assert_eq!(verdict, Err(DeliveryError::ProtocolViolation));
}

#[test]
fn overrun_is_a_protocol_violation() {
    let mut r = StreamReassembler::new(5);
    let verdict = r.on_read(&vec![0; 11]);
    assert_eq!(verdict, Err(DeliveryError::ProtocolViolation));
}

#[test]
fn device_acks_every_read_and_completes_at_total() {
    let mut r = StreamReassembler::new(5);
    assert_eq!(r.on_read(&vec![1, 2, 3]), Ok(DeviceAction::Ack));
    assert_eq!(r.on_read(&vec![4, 5, 6]), Ok(DeviceAction::Ack));
    assert_eq!(r.on_read(&vec![7, 8, 9, 10]), Ok(DeviceAction::AckThenComplete));
    assert_eq!(r.left, vec![1, 2, 3, 4, 5]);
    assert_eq!(r.right, vec![6, 7, 8, 9, 10]);
}

#[test]
fn server_to_device_end_to_end_over_the_wire_format() {
    // Server side: one frame, chunked and acknowledged; device side:
    // boundary detection reconstructs both panels exactly.
    let f = ProccessedImage {
        left: (0..100).collect(),
        right: (100..200).collect(),
    };
    let payload = frame_stream(&f);
    let mut sender = StreamSession::new(payload.len());
    let mut device = StreamReassembler::new(f.left.len());

    loop {
        match sender.next_step() {
            SendStep::Send(start, end) => {
                let chunk = payload[start..end].to_vec();
                sender.note_sent();
                let action = device.on_read(&chunk).expect("protocol kept");
                // The device acknowledges exactly once per read.
                assert_eq!(sender.note_ack(ACK_LEN), Ok(()));
                if action == DeviceAction::AckThenComplete {
                    assert_eq!(sender.next_step(), SendStep::Done);
                }
            }
            SendStep::WaitAck => unreachable!("acknowledged inline"),
            SendStep::Done => break,
        }
    }
    assert_eq!(device.left, f.left);
    assert_eq!(device.right, f.right);
}

#[test]
fn error_descriptions_name_each_failure() {
    assert_eq!(DeliveryError::DecodeError.describe(), "decode error");
    assert_eq!(DeliveryError::NetworkError.describe(), "network error");
    assert_eq!(DeliveryError::ProtocolViolation.describe(), "protocol violation");
    assert_eq!(DeliveryError::HardwareTimeout.describe(), "hardware timeout");
}

#[test]
fn session_end_depends_on_operating_mode() {
    assert_eq!(
        session_outcome_action(OperatingMode::Continuous),
        SessionOutcomeAction::RetryConnection
    );
    assert_eq!(
        session_outcome_action(OperatingMode::Battery),
        SessionOutcomeAction::DeepSleep
    );
}

use weigand_access::io::backend::Level;
use weigand_access::io::reader::{
    ReaderAction, ReaderError, ReaderEvent, Transmission, WeigandReader, BIT_QUEUE_CAPACITY,
    DEFAULT_MAX_GAP_NANOS,
};
use weigand_access::io::weigand::WeigandError;

const VALID_FRAME: u32 = 0x8704_0404;

fn bits_of(frame: u32) -> Vec<u8> {
    (0..32).map(|position| ((frame >> (31 - position)) & 1) as u8).collect()
}

#[test]
fn thirty_two_bits_without_a_gap_make_one_frame() {
    let mut reader = WeigandReader::new(1_000);
    let mut frames = Vec::new();
    for (position, bit) in bits_of(VALID_FRAME).into_iter().enumerate() {
        match reader.receive_bit(bit, 0) {
            Transmission::Payload(frame) => frames.push((position, frame)),
            Transmission::Nothing => {}
        }
    }
    assert_eq!(frames, vec![(31, VALID_FRAME)]);
    assert_eq!(reader.bits_received(), 0);
}

#[test]
fn a_valid_frame_is_emitted_exactly_once() {
    let mut reader = WeigandReader::with_default_gap();
    let mut emitted = Vec::new();
    for (position, bit) in bits_of(VALID_FRAME).into_iter().enumerate() {
        let at = position as u64 * 1_000_000;
        match reader.step(ReaderEvent::Bit { value: bit, at }).unwrap() {
            ReaderAction::Emit(credential) => emitted.push(credential),
            ReaderAction::Wait => {}
            ReaderAction::Reject(error) => panic!("rejected: {error:?}"),
        }
    }
    assert_eq!(emitted.len(), 1);
    assert_eq!(emitted[0].get_facility_code(), 7);
    assert_eq!(emitted[0].get_card_number(), 65793);
}

#[test]
fn a_frame_with_a_flipped_last_bit_is_rejected_and_nothing_is_emitted() {
    let mut reader = WeigandReader::with_default_gap();
    let mut actions = Vec::new();
    for bit in bits_of(VALID_FRAME ^ 1) {
        actions.push(reader.step(ReaderEvent::Bit { value: bit, at: 0 }).unwrap());
    }
    assert!(actions[..31].iter().all(|action| *action == ReaderAction::Wait));
    assert_eq!(
        actions[31],
        ReaderAction::Reject(WeigandError::OddParity { expected: true, computed: false })
    );
}

#[test]
fn a_quiet_period_discards_the_partial_frame() {
    let mut reader = WeigandReader::new(1_000);
    for _ in 0..10 {
        assert_eq!(reader.receive_bit(1, 0), Transmission::Nothing);
    }
    assert_eq!(reader.bits_received(), 10);
    assert_eq!(reader.expire(), Transmission::Nothing);
    assert_eq!(reader.bits_received(), 0);
    let mut frames = Vec::new();
    for bit in bits_of(VALID_FRAME) {
        if let Transmission::Payload(frame) = reader.receive_bit(bit, 5_000) {
            frames.push(frame);
        }
    }
    assert_eq!(frames, vec![VALID_FRAME]);
}

#[test]
fn a_late_bit_opens_a_new_frame() {
    let mut reader = WeigandReader::new(1_000);
    for count in 0..31u64 {
        assert_eq!(reader.receive_bit(1, count * 1_000), Transmission::Nothing);
    }
    assert_eq!(reader.bits_received(), 31);
    // one nanosecond more than the gap allows: the thirty-one bits are dropped
    let mut frames = Vec::new();
    for (position, bit) in bits_of(VALID_FRAME).into_iter().enumerate() {
        if let Transmission::Payload(frame) = reader.receive_bit(bit, 31_001 + position as u64) {
            frames.push(frame);
        }
    }
    assert_eq!(frames, vec![VALID_FRAME]);
}

#[test]
fn a_bit_exactly_at_the_gap_still_belongs_to_the_frame() {
    let mut reader = WeigandReader::new(1_000);
    reader.receive_bit(1, 0);
    reader.receive_bit(0, 1_000);
    assert_eq!(reader.bits_received(), 2);
    reader.receive_bit(0, 2_001);
    assert_eq!(reader.bits_received(), 1);
}

#[test]
fn a_clock_that_steps_back_counts_as_no_gap() {
    let mut reader = WeigandReader::new(1_000);
    reader.receive_bit(1, 50_000);
    reader.receive_bit(1, 10);
    assert_eq!(reader.bits_received(), 2);
}

#[test]
fn the_first_bit_after_a_frame_is_never_late() {
    let mut reader = WeigandReader::new(1_000);
    for bit in bits_of(VALID_FRAME) {
        reader.receive_bit(bit, 0);
    }
    assert_eq!(reader.bits_received(), 0);
    reader.receive_bit(1, u64::MAX);
    assert_eq!(reader.bits_received(), 1);
}

#[test]
fn any_non_zero_value_is_a_one() {
    let mut reader = WeigandReader::new(1_000);
    let mut last = Transmission::Nothing;
    for _ in 0..32 {
        last = reader.receive_bit(200, 0);
    }
    assert_eq!(last, Transmission::Payload(u32::MAX));
}

#[test]
fn two_frames_in_a_row_do_not_mix() {
    let mut reader = WeigandReader::new(1_000);
    let mut frames = Vec::new();
    for frame in [0x1234_5678u32, 0x9ABC_DEF0] {
        for bit in bits_of(frame) {
            if let Transmission::Payload(done) = reader.receive_bit(bit, 0) {
                frames.push(done);
            }
        }
    }
    assert_eq!(frames, vec![0x1234_5678, 0x9ABC_DEF0]);
}

#[test]
fn quiet_on_an_idle_reader_is_nothing() {
    let mut reader = WeigandReader::with_default_gap();
    assert_eq!(reader.step(ReaderEvent::Quiet), Ok(ReaderAction::Wait));
    assert_eq!(reader.bits_received(), 0);
}

#[test]
fn a_closed_queue_is_an_error_and_keeps_the_state() {
    let mut reader = WeigandReader::with_default_gap();
    reader.receive_bit(1, 0);
    reader.receive_bit(0, 1);
    assert_eq!(reader.step(ReaderEvent::Closed), Err(ReaderError::ChannelClosed));
    assert_eq!(reader.bits_received(), 2);
}

#[test]
fn processing_no_transmission_waits() {
    assert_eq!(WeigandReader::process(Transmission::Nothing), ReaderAction::Wait);
}

#[test]
fn processing_a_payload_validates_it() {
    match WeigandReader::process(Transmission::Payload(VALID_FRAME)) {
        ReaderAction::Emit(credential) => {
            assert_eq!(credential.get_facility_code(), 7);
            assert_eq!(credential.get_card_number(), 65793);
        }
        other => panic!("unexpected {other:?}"),
    }
    assert_eq!(
        WeigandReader::process(Transmission::Payload(0)),
        ReaderAction::Reject(WeigandError::EvenParity { expected: false, computed: true })
    );
}

#[test]
fn a_line_signals_its_bit_by_going_low() {
    assert_eq!(WeigandReader::edge_to_bit(0, Level::Low), Some(0));
    assert_eq!(WeigandReader::edge_to_bit(1, Level::Low), Some(1));
    assert_eq!(WeigandReader::edge_to_bit(0, Level::High), None);
    assert_eq!(WeigandReader::edge_to_bit(1, Level::High), None);
}

#[test]
fn only_a_running_attempt_limits_the_wait() {
    let mut reader = WeigandReader::new(1_000);
    assert_eq!(reader.wait_limit(), None);
    reader.receive_bit(0, 7);
    assert_eq!(reader.wait_limit(), Some(1_000));
    reader.expire();
    assert_eq!(reader.wait_limit(), None);
    assert_eq!(WeigandReader::with_default_gap().wait_limit(), None);
}

#[test]
fn the_defaults_are_realistic() {
    assert_eq!(DEFAULT_MAX_GAP_NANOS, 25_000_000);
    assert!(BIT_QUEUE_CAPACITY >= 32);
}

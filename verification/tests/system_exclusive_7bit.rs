use midi2::detail::common_err_strings::{
    ERR_DATA_AFTER_END, ERR_EXPECTED_CONTINUE_OR_END, ERR_EXPECTED_START_OR_COMPLETE,
    ERR_INCORRECT_UMP_MESSAGE_TYPE, ERR_INVALID_SYSEX7_PAYLOAD_SIZE, ERR_INVALID_SYSEX7_STATUS,
    ERR_PAYLOAD_TOO_LONG, ERR_SLICE_TOO_SHORT,
};
use midi2::message::system_exclusive_7bit::{Status, Sysex7Message, Sysex7MessageGroup};
use midi2::{BufferOverflow, Error, InvalidData, U4, U7};

fn values(bytes: &[U7]) -> Vec<u8> {
    bytes.iter().map(|b| b.value()).collect()
}

#[test]
fn incorrect_message_type() {
    assert_eq!(
        Sysex7Message::from_data(&[0x2000_0000, 0x0]),
        Err(Error::InvalidData(InvalidData(ERR_INCORRECT_UMP_MESSAGE_TYPE))),
    );
}

#[test]
fn invalid_status_bit() {
    assert_eq!(
        Sysex7Message::from_data(&[0x30A0_0000, 0x0]),
        Err(Error::InvalidData(InvalidData(ERR_INVALID_SYSEX7_STATUS))),
    );
}

#[test]
fn data_overflow() {
    assert_eq!(
        Sysex7Message::from_data(&[0x3009_0000, 0x0]),
        Err(Error::InvalidData(InvalidData(ERR_INVALID_SYSEX7_PAYLOAD_SIZE))),
    );
}

#[test]
fn system_exclusive_7bit_builder() {
    assert_eq!(
        Sysex7Message::builder(&mut [0x0, 0x0])
            .group(U4::new(0x1))
            .status(Status::Start)
            .payload(&[U7::new(0x12), U7::new(0x34), U7::new(0x56)])
            .build(),
        Ok(Sysex7Message::from_data(&[0x3113_1234, 0x5600_0000]).unwrap()),
    );
}

#[test]
fn builder_invalid_payload() {
    assert_eq!(
        Sysex7Message::builder(&mut [0x0, 0x0]).payload(&[U7::default(); 7]).build(),
        Err(Error::InvalidData(InvalidData(ERR_PAYLOAD_TOO_LONG))),
    );
}

#[test]
fn system_exclusive_7bit_group() {
    assert_eq!(Sysex7Message::from_data(&[0x3C00_0000, 0x0]).unwrap().group(), U4::new(0xC));
}

#[test]
fn status() {
    assert_eq!(
        Sysex7Message::from_data(&[0x3020_0000, 0x0]).unwrap().status(),
        Status::Continue,
    );
}

#[test]
fn system_exclusive_7bit_data() {
    assert_eq!(
        Sysex7Message::from_data(&[0x3004_1234, 0x5678_0000]).unwrap().data(),
        &[0x30041234, 0x5678_0000],
    );
}

#[test]
fn system_exclusive_7bit_payload() {
    let message = Sysex7Message::from_data(&[0x3004_1234, 0x5678_0000]).unwrap();
    let mut buffer = [U7::new(0); 4];
    let mut payload = message.payload();
    let mut i = 0;
    while let Some(v) = payload.next() {
        buffer[i] = v;
        i += 1;
    }
    assert_eq!(&buffer, &[U7::new(0x12), U7::new(0x34), U7::new(0x56), U7::new(0x78)]);
}

#[test]
fn a_short_buffer_is_reported_before_anything_else() {
    assert_eq!(Sysex7Message::from_data(&[]), Err(Error::BufferOverflow(BufferOverflow)));
    assert_eq!(
        Sysex7Message::from_data(&[0x2000_0000]),
        Err(Error::BufferOverflow(BufferOverflow)),
    );
    assert_eq!(
        Sysex7Message::from_data(&[0x20A9_0000, 0x0]),
        Err(Error::InvalidData(InvalidData(ERR_INCORRECT_UMP_MESSAGE_TYPE))),
    );
    assert_eq!(
        Sysex7Message::from_data(&[0x3049_0000, 0x0]),
        Err(Error::InvalidData(InvalidData(ERR_INVALID_SYSEX7_STATUS))),
    );
    assert_eq!(
        Sysex7Message::from_data(&[0x3037_0000, 0x0]),
        Err(Error::InvalidData(InvalidData(ERR_INVALID_SYSEX7_PAYLOAD_SIZE))),
    );
}

#[test]
fn a_fragment_is_the_first_two_words() {
    assert_eq!(
        Sysex7Message::from_data(&[0x3001_7F00, 0x1, 0x2, 0x3]).unwrap().data(),
        &[0x3001_7F00, 0x1][..],
    );
}

#[test]
fn every_status_reads_back() {
    for (status, word) in [
        (Status::Complete, 0x3000_0000u32),
        (Status::Start, 0x3010_0000),
        (Status::Continue, 0x3020_0000),
        (Status::End, 0x3030_0000),
    ] {
        let mut buffer = [0xFFFF_FFFFu32, 0xFFFF_FFFF];
        let message = Sysex7Message::builder(&mut buffer).status(status).build().unwrap();
        assert_eq!(message.data(), &[word, 0x0][..]);
        assert_eq!(message.status(), status);
    }
    assert_eq!(Status::default(), Status::Complete);
}

#[test]
fn complete_fragments_round_trip_for_every_length() {
    let bytes = [0x7F, 0x01, 0x40, 0x00, 0x2A, 0x55];
    for length in 0..=6 {
        let payload: Vec<U7> = bytes[..length].iter().map(|b| U7::new(*b)).collect();
        let mut buffer = [0xFFFF_FFFFu32, 0xFFFF_FFFF];
        let message = Sysex7Message::builder(&mut buffer)
            .group(U4::new(0x9))
            .status(Status::Complete)
            .payload(&payload)
            .build()
            .unwrap();
        assert_eq!(values(&message.payload().collect()), &bytes[..length]);
        assert_eq!(message.group(), U4::new(0x9));
        assert_eq!(message.status(), Status::Complete);
        assert_eq!(Sysex7Message::from_data(message.data()), Ok(message));
    }
}

#[test]
fn the_builder_lays_the_payload_out_bit_exactly() {
    let payload: Vec<U7> =
        [0x01, 0x02, 0x03, 0x04, 0x05, 0x06].iter().map(|b| U7::new(*b)).collect();
    let mut buffer = [0x0u32, 0x0, 0xFFFF_FFFF];
    assert_eq!(
        Sysex7Message::builder(&mut buffer)
            .group(U4::new(0xF))
            .status(Status::End)
            .payload(&payload)
            .build()
            .unwrap()
            .data(),
        &[0x3F36_0102, 0x0304_0506][..],
    );
    assert_eq!(buffer[2], 0xFFFF_FFFF);
}

#[test]
fn a_shorter_payload_keeps_the_slots_behind_it() {
    let long: Vec<U7> = [0x11, 0x22, 0x33, 0x44].iter().map(|b| U7::new(*b)).collect();
    let short: Vec<U7> = [0x55].iter().map(|b| U7::new(*b)).collect();
    let mut buffer = [0x0u32, 0x0];
    let message =
        Sysex7Message::builder(&mut buffer).payload(&long).payload(&short).build().unwrap();
    assert_eq!(message.data(), &[0x3001_5522, 0x3344_0000][..]);
    assert_eq!(values(&message.payload().collect()), &[0x55][..]);
}

#[test]
fn a_builder_over_a_short_buffer_reports_overflow() {
    assert_eq!(
        Sysex7Message::builder(&mut [0x0]).group(U4::new(0x1)).payload(&[]).build(),
        Err(Error::BufferOverflow(BufferOverflow)),
    );
}

#[test]
fn payload_bytes_are_read_as_seven_bits() {
    let message = Sysex7Message::from_data(&[0x3002_FF80, 0x0]).unwrap();
    assert_eq!(values(&message.payload().collect()), &[0x7F, 0x00][..]);
}

#[test]
fn a_message_is_one_complete_fragment_or_start_to_end() {
    assert!(Sysex7MessageGroup::from_data(&[0x3000_0000, 0x0]).is_ok());
    assert!(Sysex7MessageGroup::from_data(&[0x3010_0000, 0x0, 0x3030_0000, 0x0]).is_ok());
    assert!(Sysex7MessageGroup::from_data(&[
        0x3010_0000, 0x0, 0x3020_0000, 0x0, 0x3020_0000, 0x0, 0x3030_0000, 0x0,
    ])
    .is_ok());
    assert_eq!(
        Sysex7MessageGroup::from_data(&[]),
        Err(Error::InvalidData(InvalidData(ERR_SLICE_TOO_SHORT))),
    );
    assert_eq!(
        Sysex7MessageGroup::from_data(&[0x3000_0000, 0x0, 0x3000_0000]),
        Err(Error::InvalidData(InvalidData(ERR_SLICE_TOO_SHORT))),
    );
    assert_eq!(
        Sysex7MessageGroup::from_data(&[0x3020_0000, 0x0]),
        Err(Error::InvalidData(InvalidData(ERR_EXPECTED_START_OR_COMPLETE))),
    );
    assert_eq!(
        Sysex7MessageGroup::from_data(&[0x3010_0000, 0x0, 0x3010_0000, 0x0]),
        Err(Error::InvalidData(InvalidData(ERR_EXPECTED_CONTINUE_OR_END))),
    );
    assert_eq!(
        Sysex7MessageGroup::from_data(&[0x3010_0000, 0x0, 0x3020_0000, 0x0]),
        Err(Error::InvalidData(InvalidData(ERR_EXPECTED_CONTINUE_OR_END))),
    );
    assert_eq!(
        Sysex7MessageGroup::from_data(&[0x3000_0000, 0x0, 0x3000_0000, 0x0]),
        Err(Error::InvalidData(InvalidData(ERR_DATA_AFTER_END))),
    );
    assert_eq!(
        Sysex7MessageGroup::from_data(&[0x3010_0000, 0x0, 0x2030_0000, 0x0]),
        Err(Error::InvalidData(InvalidData(ERR_INCORRECT_UMP_MESSAGE_TYPE))),
    );
    assert_eq!(
        Sysex7MessageGroup::from_data(&[0x3010_0000, 0x0, 0x3037_0000, 0x0]),
        Err(Error::InvalidData(InvalidData(ERR_INVALID_SYSEX7_PAYLOAD_SIZE))),
    );
}

#[test]
fn a_message_joins_the_payloads_of_its_fragments() {
    let words = [0x3B16_0102, 0x0304_0506, 0x3B22_0708, 0x0, 0x3B31_0900, 0x0];
    let message = Sysex7MessageGroup::from_data(&words).unwrap();
    assert_eq!(
        values(&message.payload()),
        &[0x01, 0x02, 0x03, 0x04, 0x05, 0x06, 0x07, 0x08, 0x09][..],
    );
    assert_eq!(message.group(), U4::new(0xB));
    assert_eq!(message.data(), &words[..]);
    let mut fragments = message.messages();
    assert_eq!(fragments.next().unwrap().status(), Status::Start);
    assert_eq!(fragments.next().unwrap().data(), &[0x3B22_0708, 0x0][..]);
    assert_eq!(fragments.next().unwrap().status(), Status::End);
    assert_eq!(fragments.next(), None);
    assert_eq!(fragments.next(), None);
}

#[test]
fn the_builder_touches_the_fragment_only() {
    let mut buffer = [0xFFFF_FFFFu32, 0xFFFF_FFFF, 0xFFFF_FFFF];
    assert_eq!(
        Sysex7Message::builder(&mut buffer).build().unwrap().data(),
        &[0x3000_0000, 0x0][..],
    );
    assert_eq!(buffer, [0x3000_0000, 0x0, 0xFFFF_FFFF]);
    let mut short = [0xFFFF_FFFFu32];
    assert_eq!(
        Sysex7Message::builder(&mut short).status(Status::End).build(),
        Err(Error::BufferOverflow(BufferOverflow)),
    );
    assert_eq!(short, [0xFFFF_FFFF]);
    let mut refused = [0x0u32, 0x0, 0x1234_5678];
    assert_eq!(
        Sysex7Message::builder(&mut refused)
            .group(U4::new(0x2))
            .payload(&[U7::default(); 7])
            .build(),
        Err(Error::InvalidData(InvalidData(ERR_PAYLOAD_TOO_LONG))),
    );
    assert_eq!(refused, [0x3200_0000, 0x0, 0x1234_5678]);
}

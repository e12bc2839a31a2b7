use midi2::detail::common_err_strings::{
    ERR_EXPECTED_CONTINUE_OR_END, ERR_EXPECTED_START_OR_COMPLETE, ERR_INCORRECT_UMP_MESSAGE_TYPE,
    ERR_INVALID_SYSEX7_PAYLOAD_SIZE, ERR_INVALID_SYSEX7_STATUS, ERR_SLICE_TOO_SHORT,
};
use midi2::message::system_exclusive_7bit::{Status, Sysex7Message};
use midi2::sysex7::{Packet, ParseResult, Sysex7, Sysex7Parser};
use midi2::{BufferOverflow, Error, InvalidData, U4, U7};

fn fragment(status: Status, payload: &[u8]) -> [u32; 2] {
    let payload: Vec<U7> = payload.iter().map(|b| U7::new(*b)).collect();
    let mut buffer = [0u32; 2];
    Sysex7Message::builder(&mut buffer)
        .group(U4::new(0x3))
        .status(status)
        .payload(&payload)
        .build()
        .unwrap();
    buffer
}

fn values(bytes: &[U7]) -> Vec<u8> {
    bytes.iter().map(|b| b.value()).collect()
}

#[test]
fn parse_raw_trivial_complete() {
    let mut parser = Sysex7Parser::<Vec<u32>>::new();
    let buffer = [0x3000_0000, 0x0];
    assert_eq!(
        parser.parse_raw(&buffer[..]),
        Ok(ParseResult::Complete(Sysex7::from_data(&buffer[..]).unwrap()))
    );
}

#[test]
fn parse_raw_wrong_packet_type() {
    let mut parser = Sysex7Parser::<Vec<u32>>::new();
    assert_eq!(
        parser.parse_raw(&[0x2000_0000, 0x0][..]),
        Err(InvalidData(ERR_INCORRECT_UMP_MESSAGE_TYPE))
    );
}

#[test]
fn parse_raw_start_with_continue_packet() {
    let mut parser = Sysex7Parser::<Vec<u32>>::new();
    assert_eq!(
        parser.parse_raw(&[0x3020_0000, 0x0][..]),
        Err(InvalidData(ERR_EXPECTED_START_OR_COMPLETE))
    );
}

#[test]
fn parse_raw_start_with_start_packet() {
    let mut parser = Sysex7Parser::<Vec<u32>>::new();
    assert_eq!(parser.parse_raw(&[0x3010_0000, 0x0][..]), Ok(ParseResult::Incomplete),);
}

#[test]
fn parse_raw_start_and_end() {
    let mut parser = Sysex7Parser::<Vec<u32>>::new();
    let expected = [0x3010_0000, 0x0, 0x3030_0000, 0x0];
    assert_eq!(parser.parse_raw(&[0x3010_0000, 0x0][..]), Ok(ParseResult::Incomplete),);
    assert_eq!(
        parser.parse_raw(&[0x3030_0000, 0x0][..]),
        Ok(ParseResult::Complete(Sysex7::from_data(&expected[..]).unwrap())),
    );
}

#[test]
fn the_trivial_message_is_empty_and_of_group_zero() {
    let mut parser = Sysex7Parser::<Vec<u32>>::new();
    match parser.parse_raw(&[0x3000_0000, 0x0][..]) {
        Ok(ParseResult::Complete(message)) => {
            assert_eq!(message.data(), &[0x3000_0000, 0x0][..]);
            assert_eq!(message.payload(), vec![]);
            assert_eq!(message.group(), U4::new(0x0));
        }
        other => panic!("unexpected {:?}", other),
    }
}

#[test]
fn a_wrong_type_leaves_the_parser_as_it_was() {
    let mut parser = Sysex7Parser::<Vec<u32>>::new();
    assert_eq!(parser.parse_raw(&[0x3011_0100, 0x0][..]), Ok(ParseResult::Incomplete));
    assert_eq!(
        parser.parse_raw(&[0x2000_0000, 0x0][..]),
        Err(InvalidData(ERR_INCORRECT_UMP_MESSAGE_TYPE))
    );
    assert_eq!(parser.parse_raw(&[][..]), Err(InvalidData(ERR_SLICE_TOO_SHORT)));
    assert_eq!(
        parser.parse_raw(&[0x3050_0000, 0x0][..]),
        Err(InvalidData(ERR_INVALID_SYSEX7_STATUS))
    );
    assert_eq!(
        parser.parse_raw(&[0x3037_0000, 0x0][..]),
        Err(InvalidData(ERR_INVALID_SYSEX7_PAYLOAD_SIZE))
    );
    assert_eq!(parser.buffer(), &[0x3011_0100, 0x0][..]);
    assert_eq!(parser.message(), None);
    let expected = [0x3011_0100, 0x0, 0x3031_0200, 0x0];
    assert_eq!(
        parser.parse_raw(&[0x3031_0200, 0x0][..]),
        Ok(ParseResult::Complete(Sysex7::from_data(&expected[..]).unwrap())),
    );
}

#[test]
fn a_split_payload_is_reassembled_in_order() {
    let payload: Vec<u8> = (0u8..23).collect();
    let chunks: Vec<&[u8]> = payload.chunks(6).collect();
    let mut parser = Sysex7Parser::<Vec<u32>>::new();
    for (i, chunk) in chunks.iter().enumerate() {
        let status = if i == 0 {
            Status::Start
        } else if i == chunks.len() - 1 {
            Status::End
        } else {
            Status::Continue
        };
        let packet = Packet::try_from(&fragment(status, chunk)).unwrap();
        match parser.parse(packet) {
            Ok(ParseResult::Incomplete) => assert!(i < chunks.len() - 1),
            Ok(ParseResult::Complete(message)) => {
                assert_eq!(i, chunks.len() - 1);
                assert_eq!(values(&message.payload()), payload);
                assert_eq!(message.data().len(), 2 * chunks.len());
            }
            Err(e) => panic!("unexpected {:?}", e),
        }
    }
    assert_eq!(values(&parser.message().unwrap().payload()), payload);
}

#[test]
fn continue_or_end_where_a_start_is_expected_is_refused() {
    let mut parser = Sysex7Parser::<Vec<u32>>::new();
    for status in [Status::Continue, Status::End] {
        let packet = Packet::try_from(&fragment(status, &[0x01])).unwrap();
        assert_eq!(parser.parse(packet), Err(InvalidData(ERR_EXPECTED_START_OR_COMPLETE)));
        let empty: &[u32] = &[];
        assert_eq!(parser.buffer(), empty);
    }
    let start = Packet::try_from(&fragment(Status::Start, &[0x02])).unwrap();
    assert_eq!(parser.parse(start), Ok(ParseResult::Incomplete));
    let mut other = Sysex7Parser::<Vec<u32>>::new();
    let refused = Packet::try_from(&fragment(Status::End, &[])).unwrap();
    assert_eq!(other.parse(refused), Err(InvalidData(ERR_EXPECTED_START_OR_COMPLETE)));
    let complete = Packet::try_from(&fragment(Status::Complete, &[0x03])).unwrap();
    assert!(matches!(other.parse(complete), Ok(ParseResult::Complete(_))));
}

#[test]
fn start_or_complete_where_an_end_is_expected_loses_nothing() {
    let mut parser = Sysex7Parser::<Vec<u32>>::new();
    let start = fragment(Status::Start, &[0x01, 0x02]);
    assert_eq!(parser.parse(Packet::try_from(&start).unwrap()), Ok(ParseResult::Incomplete));
    for status in [Status::Start, Status::Complete] {
        let packet = Packet::try_from(&fragment(status, &[0x7F])).unwrap();
        assert_eq!(parser.parse(packet), Err(InvalidData(ERR_EXPECTED_CONTINUE_OR_END)));
        assert_eq!(parser.buffer(), &start[..]);
    }
    let end = Packet::try_from(&fragment(Status::End, &[0x03])).unwrap();
    match parser.parse(end) {
        Ok(ParseResult::Complete(message)) => {
            assert_eq!(values(&message.payload()), &[0x01, 0x02, 0x03][..])
        }
        other => panic!("unexpected {:?}", other),
    }
}

#[test]
fn the_fragment_after_a_finished_message_starts_afresh() {
    let mut parser = Sysex7Parser::<Vec<u32>>::new();
    let complete = Packet::try_from(&fragment(Status::Complete, &[0x01])).unwrap();
    assert!(matches!(parser.parse(complete), Ok(ParseResult::Complete(_))));
    assert!(parser.message().is_some());
    let start = fragment(Status::Start, &[0x02]);
    assert_eq!(parser.parse(Packet::try_from(&start).unwrap()), Ok(ParseResult::Incomplete));
    assert_eq!(parser.buffer(), &start[..]);
    assert_eq!(parser.message(), None);
}

#[test]
fn a_fault_after_a_finished_message_drops_that_message() {
    let mut parser = Sysex7Parser::<Vec<u32>>::new();
    let complete = Packet::try_from(&fragment(Status::Complete, &[0x01])).unwrap();
    assert!(matches!(parser.parse(complete), Ok(ParseResult::Complete(_))));
    let end = Packet::try_from(&fragment(Status::End, &[])).unwrap();
    assert_eq!(parser.parse(end), Err(InvalidData(ERR_EXPECTED_START_OR_COMPLETE)));
    let empty: &[u32] = &[];
    assert_eq!(parser.buffer(), empty);
    assert_eq!(parser.message(), None);
}

#[test]
fn clear_drops_a_message_in_progress() {
    let mut parser = Sysex7Parser::<Vec<u32>>::default();
    let start = Packet::try_from(&fragment(Status::Start, &[0x01])).unwrap();
    assert_eq!(parser.parse(start), Ok(ParseResult::Incomplete));
    parser.clear();
    let empty: &[u32] = &[];
    assert_eq!(parser.buffer(), empty);
    let complete = Packet::try_from(&fragment(Status::Complete, &[0x02])).unwrap();
    match parser.parse(complete) {
        Ok(ParseResult::Complete(message)) => assert_eq!(values(&message.payload()), &[0x02][..]),
        other => panic!("unexpected {:?}", other),
    }
}

#[test]
fn a_full_buffer_is_reported_and_changes_nothing() {
    let mut parser = Sysex7Parser::<[u32; 4]>::new();
    let start = fragment(Status::Start, &[0x01]);
    let middle = fragment(Status::Continue, &[0x02]);
    assert_eq!(parser.try_parse(Packet::try_from(&start).unwrap()), Ok(ParseResult::Incomplete));
    assert_eq!(parser.try_parse(Packet::try_from(&middle).unwrap()), Ok(ParseResult::Incomplete));
    let end = Packet::try_from(&fragment(Status::End, &[0x03])).unwrap();
    assert_eq!(parser.try_parse(end), Err(Error::BufferOverflow(BufferOverflow)));
    assert_eq!(parser.buffer(), &[start[0], start[1], middle[0], middle[1]][..]);
    assert_eq!(parser.try_parse(end), Err(Error::BufferOverflow(BufferOverflow)));
    let refused = Packet::try_from(&fragment(Status::Start, &[])).unwrap();
    assert_eq!(
        parser.try_parse(refused),
        Err(Error::InvalidData(InvalidData(ERR_EXPECTED_CONTINUE_OR_END)))
    );
    assert_eq!(
        parser.try_parse_raw(&[0x2000_0000][..]),
        Err(Error::InvalidData(InvalidData(ERR_INCORRECT_UMP_MESSAGE_TYPE)))
    );
    parser.clear();
    assert!(matches!(
        parser.try_parse_raw(&[0x3000_0000][..]),
        Ok(ParseResult::Complete(_))
    ));
}

#[test]
fn a_borrowed_region_serves_as_a_buffer() {
    let mut region = [0xFFFF_FFFFu32; 4];
    let mut parser = Sysex7Parser::new_with_buffer(&mut region[..]);
    assert_eq!(parser.try_parse_raw(&[0x3011_0500, 0x0][..]), Ok(ParseResult::Incomplete));
    match parser.try_parse_raw(&[0x3031_0600, 0x0][..]) {
        Ok(ParseResult::Complete(message)) => {
            assert_eq!(values(&message.payload()), &[0x05, 0x06][..])
        }
        other => panic!("unexpected {:?}", other),
    }
    assert_eq!(region, [0x3011_0500, 0x0, 0x3031_0600, 0x0]);
}

#[test]
fn an_owned_fragment_is_validated_and_padded() {
    assert_eq!(Packet::try_from(&[][..]), Err(InvalidData(ERR_SLICE_TOO_SHORT)));
    assert_eq!(
        Packet::try_from(&[0x4000_0000, 0x0][..]),
        Err(InvalidData(ERR_INCORRECT_UMP_MESSAGE_TYPE))
    );
    assert_eq!(
        Packet::try_from(&[0x3040_0000, 0x0][..]),
        Err(InvalidData(ERR_INVALID_SYSEX7_STATUS))
    );
    assert_eq!(
        Packet::try_from(&[0x3007_0000, 0x0][..]),
        Err(InvalidData(ERR_INVALID_SYSEX7_PAYLOAD_SIZE))
    );
    let mut packet = Packet::try_from(&[0x3012_0102][..]).unwrap();
    assert_eq!(&*packet, &[0x3012_0102, 0x0][..]);
    assert_eq!(packet.status(), Status::Start);
    assert_eq!(packet.group(), U4::new(0x0));
    packet.set_group(U4::new(0xE));
    assert_eq!(packet.data(), &[0x3E12_0102, 0x0][..]);
    assert_eq!(values(&packet.message().payload().collect()), &[0x01, 0x02][..]);
    assert_eq!(
        Packet::try_from(&[0x3000_0000, 0x1, 0x2][..]).unwrap().data(),
        &[0x3000_0000, 0x1][..]
    );
}

#[test]
fn a_full_buffer_still_takes_a_refusal() {
    let mut parser = Sysex7Parser::<[u32; 2]>::new();
    let start = fragment(Status::Start, &[0x01]);
    assert_eq!(parser.parse(Packet::try_from(&start).unwrap()), Ok(ParseResult::Incomplete));
    for status in [Status::Start, Status::Complete] {
        let stray = Packet::try_from(&fragment(status, &[0x02])).unwrap();
        assert_eq!(parser.parse(stray), Err(InvalidData(ERR_EXPECTED_CONTINUE_OR_END)));
        assert_eq!(parser.buffer(), &start[..]);
    }
    assert_eq!(
        parser.parse_raw(&[0x2000_0000, 0x0][..]),
        Err(InvalidData(ERR_INCORRECT_UMP_MESSAGE_TYPE))
    );
    assert_eq!(parser.parse_raw(&[][..]), Err(InvalidData(ERR_SLICE_TOO_SHORT)));
    assert_eq!(parser.buffer(), &start[..]);
    assert_eq!(parser.message(), None);
}

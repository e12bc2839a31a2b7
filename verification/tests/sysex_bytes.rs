use midi2::detail::common_err_strings::ERR_INVALID_SYSEX_BYTES;
use midi2::message::sysex_bytes::{
    Bound, Sysex7BytesBorrowed, Sysex7BytesBuilder, Sysex7BytesMessage, Sysex7BytesOwned,
};
use midi2::{BufferOverflow, Error, InvalidData, U7};

fn sevens(from: u8, to: u8) -> Vec<U7> {
    (from..to).map(U7::new).collect()
}

#[test]
fn builder() {
    assert_eq!(
        Sysex7BytesBorrowed::builder(&mut [0xAAu8; 22]).payload(&sevens(0, 20)).build(),
        Ok(Sysex7BytesBorrowed::from_byte_data(&[
            0xF0, 0x00, 0x01, 0x02, 0x03, 0x04, 0x05, 0x06, 0x07, 0x08, 0x09, 0x0A, 0x0B, 0x0C,
            0x0D, 0x0E, 0x0F, 0x10, 0x11, 0x12, 0x13, 0xF7,
        ])
        .unwrap()),
    );
}

#[test]
fn builder_buffer_overflow() {
    assert_eq!(
        Sysex7BytesBorrowed::builder(&mut [0xAAu8; 21]).payload(&sevens(0, 20)).build(),
        Err(Error::BufferOverflow(BufferOverflow)),
    );
}

#[test]
fn from_data_missing_start() {
    assert_eq!(
        Sysex7BytesBorrowed::from_byte_data(&[
            0x00, 0x01, 0x02, 0x03, 0x04, 0x05, 0x06, 0x07, 0x08, 0x09, 0x0A, 0x0B, 0x0C, 0x0D,
            0x0E, 0x0F, 0x10, 0x11, 0x12, 0x13, 0xF7,
        ]),
        Err(Error::InvalidData(InvalidData(ERR_INVALID_SYSEX_BYTES))),
    );
}

#[test]
fn from_data_missing_end() {
    assert_eq!(
        Sysex7BytesBorrowed::from_byte_data(&[
            0xF0, 0x00, 0x01, 0x02, 0x03, 0x04, 0x05, 0x06, 0x07, 0x08, 0x09, 0x0A, 0x0B, 0x0C,
            0x0D, 0x0E, 0x0F, 0x10, 0x11, 0x12, 0x13,
        ]),
        Err(Error::InvalidData(InvalidData(ERR_INVALID_SYSEX_BYTES))),
    );
}

#[test]
fn payload() {
    let actual: [u8; 20] = {
        let data = [
            0xF0, 0x00, 0x01, 0x02, 0x03, 0x04, 0x05, 0x06, 0x07, 0x08, 0x09, 0x0A, 0x0B, 0x0C,
            0x0D, 0x0E, 0x0F, 0x10, 0x11, 0x12, 0x13, 0xF7,
        ];
        let message = Sysex7BytesBorrowed::from_byte_data(&data).unwrap();
        let payload = message.payload();
        let mut buffer: [u8; 20] = Default::default();
        for (i, d) in payload.iter().enumerate() {
            buffer[i] = *d;
        }
        buffer
    };
    let expected: [u8; 20] = [
        0x00, 0x01, 0x02, 0x03, 0x04, 0x05, 0x06, 0x07, 0x08, 0x09, 0x0A, 0x0B, 0x0C, 0x0D,
        0x0E, 0x0F, 0x10, 0x11, 0x12, 0x13,
    ];
    assert_eq!(actual, expected);
}

fn owned(bytes: &[u8]) -> Sysex7BytesOwned {
    Sysex7BytesBorrowed::from_byte_data(bytes).unwrap().into_owned()
}

#[test]
fn sysex_bytes_builder() {
    assert_eq!(
        Sysex7BytesMessage::builder().payload(&sevens(0, 20)).build(),
        Ok(Sysex7BytesMessage::Owned(owned(&[
            0xF0, 0x00, 0x01, 0x02, 0x03, 0x04, 0x05, 0x06, 0x07, 0x08, 0x09, 0x0A, 0x0B, 0x0C,
            0x0D, 0x0E, 0x0F, 0x10, 0x11, 0x12, 0x13, 0xF7,
        ]))),
    );
}

#[test]
fn builder_append_payload() {
    assert_eq!(
        Sysex7BytesMessage::builder()
            .payload(&sevens(0, 20))
            .append_payload(&sevens(20, 40))
            .build(),
        Ok(Sysex7BytesMessage::Owned(owned(&[
            0xF0, 0x00, 0x01, 0x02, 0x03, 0x04, 0x05, 0x06, 0x07, 0x08, 0x09, 0x0A, 0x0B, 0x0C,
            0x0D, 0x0E, 0x0F, 0x10, 0x11, 0x12, 0x13, 0x14, 0x15, 0x16, 0x17, 0x18, 0x19, 0x1A,
            0x1B, 0x1C, 0x1D, 0x1E, 0x1F, 0x20, 0x21, 0x22, 0x23, 0x24, 0x25, 0x26, 0x27, 0xF7,
        ]))),
    );
}

#[test]
fn builder_reset_payload() {
    assert_eq!(
        Sysex7BytesMessage::builder().payload(&sevens(0, 20)).payload(&sevens(20, 40)).build(),
        Ok(Sysex7BytesMessage::Owned(owned(&[
            0xF0, 0x14, 0x15, 0x16, 0x17, 0x18, 0x19, 0x1A, 0x1B, 0x1C, 0x1D, 0x1E, 0x1F, 0x20,
            0x21, 0x22, 0x23, 0x24, 0x25, 0x26, 0x27, 0xF7,
        ]))),
    );
}

#[test]
fn builder_replace_payload_range_equal_replacement() {
    assert_eq!(
        Sysex7BytesMessage::builder()
            .payload(&sevens(0, 20))
            .replace_payload_range(&sevens(20, 25), Bound::Included(5), Bound::Excluded(10))
            .build(),
        Ok(Sysex7BytesMessage::Owned(owned(&[
            0xF0, 0x00, 0x01, 0x02, 0x03, 0x04, 0x14, 0x15, 0x16, 0x17, 0x18, 0x0A, 0x0B, 0x0C,
            0x0D, 0x0E, 0x0F, 0x10, 0x11, 0x12, 0x13, 0xF7,
        ]))),
    );
}

#[test]
fn builder_replace_payload_range_smaller_replacement() {
    assert_eq!(
        Sysex7BytesMessage::builder()
            .payload(&sevens(0, 20))
            .replace_payload_range(&sevens(20, 25), Bound::Included(5), Bound::Excluded(15))
            .build(),
        Ok(Sysex7BytesMessage::Owned(owned(&[
            0xF0, 0x00, 0x01, 0x02, 0x03, 0x04, 0x14, 0x15, 0x16, 0x17, 0x18, 0x0F, 0x10, 0x11,
            0x12, 0x13, 0xF7,
        ]))),
    );
}

#[test]
fn builder_replace_payload_range_larger_replacement() {
    assert_eq!(
        Sysex7BytesMessage::builder()
            .payload(&sevens(0, 20))
            .replace_payload_range(&sevens(20, 40), Bound::Included(5), Bound::Excluded(10))
            .build(),
        Ok(Sysex7BytesMessage::Owned(owned(&[
            0xF0, 0x00, 0x01, 0x02, 0x03, 0x04, 0x14, 0x15, 0x16, 0x17, 0x18, 0x19, 0x1A, 0x1B,
            0x1C, 0x1D, 0x1E, 0x1F, 0x20, 0x21, 0x22, 0x23, 0x24, 0x25, 0x26, 0x27, 0x0A, 0x0B,
            0x0C, 0x0D, 0x0E, 0x0F, 0x10, 0x11, 0x12, 0x13, 0xF7,
        ]))),
    );
}

#[test]
fn builder_replace_payload_range_to_the_end() {
    assert_eq!(
        Sysex7BytesMessage::builder()
            .payload(&sevens(0, 20))
            .replace_payload_range(&sevens(20, 40), Bound::Included(10), Bound::Unbounded)
            .build(),
        Ok(Sysex7BytesMessage::Owned(owned(&[
            0xF0, 0x00, 0x01, 0x02, 0x03, 0x04, 0x05, 0x06, 0x07, 0x08, 0x09, 0x14, 0x15, 0x16,
            0x17, 0x18, 0x19, 0x1A, 0x1B, 0x1C, 0x1D, 0x1E, 0x1F, 0x20, 0x21, 0x22, 0x23, 0x24,
            0x25, 0x26, 0x27, 0xF7,
        ]))),
    );
}

#[test]
fn sysex_bytes_payload() {
    let expected: Vec<u8> = vec![
        0x00, 0x01, 0x02, 0x03, 0x04, 0x05, 0x06, 0x07, 0x08, 0x09, 0x0A, 0x0B, 0x0C, 0x0D,
        0x0E, 0x0F, 0x10, 0x11, 0x12, 0x13,
    ];
    let actual: Vec<u8> = Sysex7BytesMessage::from_byte_data(&[
        0xF0, 0x00, 0x01, 0x02, 0x03, 0x04, 0x05, 0x06, 0x07, 0x08, 0x09, 0x0A, 0x0B, 0x0C,
        0x0D, 0x0E, 0x0F, 0x10, 0x11, 0x12, 0x13, 0xF7,
    ])
    .unwrap()
    .payload()
    .iter()
    .cloned()
    .collect();
    assert_eq!(expected, actual);
}

#[test]
fn into_owned() {
    assert_eq!(
        Sysex7BytesMessage::from_byte_data(&[
            0xF0, 0x00, 0x01, 0x02, 0x03, 0x04, 0x05, 0x06, 0x07, 0x08, 0x09, 0x0A, 0x0B, 0x0C,
            0x0D, 0x0E, 0x0F, 0x10, 0x11, 0x12, 0x13, 0xF7,
        ])
        .unwrap()
        .into_owned(),
        Sysex7BytesOwned::builder().payload(&sevens(0, 20)).build().unwrap(),
    );
}

#[test]
fn byte_data() {
    assert_eq!(
        Sysex7BytesMessage::builder().payload(&sevens(0, 20)).build().unwrap().byte_data(),
        &[
            0xF0, 0x00, 0x01, 0x02, 0x03, 0x04, 0x05, 0x06, 0x07, 0x08, 0x09, 0x0A, 0x0B, 0x0C,
            0x0D, 0x0E, 0x0F, 0x10, 0x11, 0x12, 0x13, 0xF7,
        ],
    );
}

#[test]
fn replace_with_every_kind_of_bound() {
    let mut builder: Sysex7BytesBuilder<Sysex7BytesOwned> = Sysex7BytesBuilder::new();
    builder.payload(&sevens(0, 6));
    builder.replace_payload_range(&sevens(0x40, 0x41), Bound::Excluded(0), Bound::Included(2));
    assert_eq!(
        builder.build().unwrap().byte_data(),
        &[0xF0, 0x00, 0x40, 0x03, 0x04, 0x05, 0xF7][..],
    );
    builder.replace_payload_range(&[], Bound::Unbounded, Bound::Excluded(2));
    assert_eq!(builder.build().unwrap().byte_data(), &[0xF0, 0x03, 0x04, 0x05, 0xF7][..]);
    builder.replace_payload_range(&sevens(0x10, 0x12), Bound::Included(3), Bound::Unbounded);
    assert_eq!(
        builder.build().unwrap().byte_data(),
        &[0xF0, 0x03, 0x04, 0x05, 0x10, 0x11, 0xF7][..],
    );
    assert_eq!(builder.len(), 5);
    builder.replace_payload_range(&[], Bound::Unbounded, Bound::Unbounded);
    assert_eq!(builder.build().unwrap().byte_data(), &[0xF0, 0xF7][..]);
    assert_eq!(builder.len(), 0);
}

#[test]
fn an_empty_payload_is_a_message_of_two_markers() {
    assert_eq!(
        Sysex7BytesOwned::builder().build().unwrap().byte_data(),
        &[0xF0, 0xF7][..],
    );
    assert_eq!(Sysex7BytesOwned::builder().build().unwrap().payload(), &[][..]);
    let mut buffer = [0u8; 2];
    assert_eq!(
        Sysex7BytesBorrowed::builder(&mut buffer).build().unwrap().byte_data(),
        &[0xF0, 0xF7][..],
    );
    let mut short = [0u8; 1];
    assert_eq!(
        Sysex7BytesBorrowed::builder(&mut short).build(),
        Err(Error::BufferOverflow(BufferOverflow)),
    );
}

#[test]
fn validation_wants_both_markers() {
    assert_eq!(Sysex7BytesBorrowed::validate_byte_data(&[0xF0, 0xF7]), Ok(()));
    assert_eq!(
        Sysex7BytesBorrowed::validate_byte_data(&[0xF0]),
        Err(Error::InvalidData(InvalidData(ERR_INVALID_SYSEX_BYTES))),
    );
    assert_eq!(
        Sysex7BytesMessage::validate_byte_data(&[]),
        Err(Error::InvalidData(InvalidData(ERR_INVALID_SYSEX_BYTES))),
    );
}

#[test]
fn a_borrowed_builder_that_overflowed_stays_so() {
    let mut buffer = [0u8; 4];
    assert_eq!(
        Sysex7BytesBorrowed::builder(&mut buffer)
            .payload(&sevens(0, 4))
            .payload(&[])
            .build(),
        Err(Error::BufferOverflow(BufferOverflow)),
    );
    let mut exact = [0u8; 4];
    assert_eq!(
        Sysex7BytesBorrowed::builder(&mut exact).payload(&sevens(1, 3)).build().unwrap().payload(),
        &[0x01, 0x02][..],
    );
}

#[test]
fn the_borrowed_builder_leaves_the_rest_of_the_buffer() {
    let mut buffer = [0xAAu8; 6];
    assert_eq!(
        Sysex7BytesBorrowed::builder(&mut buffer)
            .payload(&sevens(1, 3))
            .build()
            .unwrap()
            .byte_data(),
        &[0xF0, 0x01, 0x02, 0xF7][..],
    );
    assert_eq!(buffer, [0xF0, 0x01, 0x02, 0xF7, 0xAA, 0xAA]);
    let mut empty = [0xAAu8; 3];
    assert!(Sysex7BytesBorrowed::builder(&mut empty).build().is_ok());
    assert_eq!(empty, [0xF0, 0xF7, 0xAA]);
}

#[test]
fn a_buffer_that_is_too_short_is_not_written() {
    let mut short = [0xAAu8; 1];
    assert_eq!(
        Sysex7BytesBorrowed::builder(&mut short).payload(&sevens(1, 3)).build(),
        Err(Error::BufferOverflow(BufferOverflow)),
    );
    assert_eq!(short, [0xAA]);
}

#[test]
fn an_overflow_leaves_the_buffer_full() {
    let mut buffer = [0xAAu8; 3];
    assert_eq!(
        Sysex7BytesBorrowed::builder(&mut buffer).payload(&sevens(1, 5)).build(),
        Err(Error::BufferOverflow(BufferOverflow)),
    );
    assert_eq!(buffer, [0xF0, 0x01, 0x02]);
    let mut exact = [0xAAu8; 3];
    assert_eq!(
        Sysex7BytesBorrowed::builder(&mut exact).payload(&sevens(1, 3)).build(),
        Err(Error::BufferOverflow(BufferOverflow)),
    );
    assert_eq!(exact, [0xF0, 0x01, 0x02]);
}

#[test]
fn a_built_message_owns_its_bytes() {
    assert!(matches!(
        Sysex7BytesMessage::builder().payload(&sevens(0, 3)).build(),
        Ok(Sysex7BytesMessage::Owned(_))
    ));
}

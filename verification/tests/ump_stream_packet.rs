use midi2::detail::common_err_strings::{ERR_INCORRECT_UMP_MESSAGE_TYPE, ERR_SLICE_TOO_SHORT};
use midi2::ump_stream::{status_from_buffer, Format, Packet};
use midi2::{InvalidData, U10};

#[test]
fn packet_construction() {
    assert!(Packet::try_from(&[0xF000_0000][..]).is_ok())
}

#[test]
fn construction_long_slice() {
    assert!(Packet::try_from(&[0xF000_0000, 0x0, 0x0, 0x0][..]).is_ok())
}

#[test]
fn construction_very_long_slice() {
    assert!(Packet::try_from(&[0xF000_0000, 0x0, 0x0, 0x0, 0x0][..]).is_ok())
}

#[test]
fn packet_construction_short_slice() {
    assert_eq!(Packet::try_from(&[][..]), Err(InvalidData(ERR_SLICE_TOO_SHORT)))
}

#[test]
fn packet_construction_incorrect_ump_message_type() {
    assert_eq!(
        Packet::try_from(&[0x0000_0000, 0x0000_0000, 0x0000_0000, 0x0000_0000][..]),
        Err(InvalidData(ERR_INCORRECT_UMP_MESSAGE_TYPE)),
    )
}

#[test]
fn complete_format() {
    assert_eq!(
        Packet::try_from(&[0xF000_0000, 0x0000_0000, 0x0000_0000, 0x0000_0000][..])
            .unwrap()
            .format(),
        Format::Complete,
    )
}

#[test]
fn start_format() {
    assert_eq!(
        Packet::try_from(&[0xF400_0000, 0x0000_0000, 0x0000_0000, 0x0000_0000][..])
            .unwrap()
            .format(),
        Format::Start,
    )
}

#[test]
fn continue_format() {
    assert_eq!(
        Packet::try_from(&[0xF800_0000, 0x0000_0000, 0x0000_0000, 0x0000_0000][..])
            .unwrap()
            .format(),
        Format::Continue,
    )
}

#[test]
fn end_format() {
    assert_eq!(
        Packet::try_from(&[0xFC00_0000, 0x0000_0000, 0x0000_0000, 0x0000_0000][..])
            .unwrap()
            .format(),
        Format::End,
    )
}

#[test]
fn construction_keeps_four_words() {
    assert_eq!(
        &*Packet::try_from(&[0xF000_0001, 0x2, 0x3, 0x4, 0x5][..]).unwrap(),
        &[0xF000_0001, 0x2, 0x3, 0x4][..],
    );
    assert_eq!(
        Packet::try_from(&[0xF000_0001, 0x2][..]).unwrap().data(),
        &[0xF000_0001, 0x2, 0x0, 0x0][..],
    );
}

#[test]
fn status_is_the_ten_bits_below_the_format() {
    assert_eq!(status_from_buffer(&[0xF3FF_0000]), U10::new(0x3FF));
    assert_eq!(status_from_buffer(&[0xFC01_FFFF]), U10::new(0x001));
    assert_eq!(status_from_buffer(&[0xF402_0000, 0x0]), U10::new(0x002));
}

use midi2::channel_voice2::Packet;
use midi2::detail::common_err_strings::{ERR_INCORRECT_UMP_MESSAGE_TYPE, ERR_SLICE_TOO_SHORT};
use midi2::{InvalidData, U4};

#[test]
fn construction() {
    assert!(Packet::try_from(&[0x4000_0000][..]).is_ok());
}

#[test]
fn construction_slice_size2() {
    assert!(Packet::try_from(&[0x4000_0000, 0x0][..]).is_ok());
}

#[test]
fn construction_slice_size4() {
    assert!(Packet::try_from(&[0x4000_0000, 0x0, 0x0, 0x0][..]).is_ok());
}

#[test]
fn construction_incorrect_ump_message_type() {
    assert_eq!(
        Packet::try_from(&[0x0000_0000][..]),
        Err(InvalidData(ERR_INCORRECT_UMP_MESSAGE_TYPE)),
    );
}

#[test]
fn construction_short_slice() {
    assert_eq!(Packet::try_from(&[][..]), Err(InvalidData(ERR_SLICE_TOO_SHORT)));
}

#[test]
fn packet_channel() {
    assert_eq!(Packet::try_from(&[0x4008_0000][..]).unwrap().channel(), U4::new(0x8));
}

#[test]
fn set_channel() {
    let mut packet = Packet::try_from(&[0x4000_0000][..]).unwrap();
    packet.set_channel(U4::new(0x8));
    assert_eq!(&*packet, &[0x4008_0000, 0x0][..]);
}

#[test]
fn packet_group() {
    assert_eq!(Packet::try_from(&[0x4A00_0000][..]).unwrap().group(), U4::new(0xA));
}

#[test]
fn set_group() {
    let mut packet = Packet::try_from(&[0x4000_0000][..]).unwrap();
    packet.set_group(U4::new(0xA));
    assert_eq!(&*packet, &[0x4A00_0000, 0x0][..]);
}

#[test]
fn construction_pads_with_zeros_and_ignores_excess() {
    assert_eq!(Packet::try_from(&[0x4123_4567][..]).unwrap().data(), &[0x4123_4567, 0x0][..]);
    assert_eq!(
        Packet::try_from(&[0x4123_4567, 0x1, 0x2, 0x3][..]).unwrap().data(),
        &[0x4123_4567, 0x1][..],
    );
}

#[test]
fn writing_group_and_channel_keeps_every_other_bit() {
    let mut packet = Packet::try_from(&[0x4FFF_FFFF, 0xFFFF_FFFF][..]).unwrap();
    packet.set_group(U4::new(0x0));
    assert_eq!(&*packet, &[0x40FF_FFFF, 0xFFFF_FFFF][..]);
    packet.set_channel(U4::new(0x5));
    assert_eq!(&*packet, &[0x40F5_FFFF, 0xFFFF_FFFF][..]);
    assert_eq!(packet.group(), U4::new(0x0));
    assert_eq!(packet.channel(), U4::new(0x5));
}

use midi2::detail::common_err_strings::{ERR_INCORRECT_UMP_MESSAGE_TYPE, ERR_UNKNOWN_STATUS};
use midi2::message::system_common::time_code::Message;
use midi2::message::system_common::{
    SongSelectBorrowed, StartBorrowed, SystemCommonBorrowed, SystemCommonOwned,
    TimeCodeBorrowed, TuneRequestBorrowed,
};
use midi2::message::utility::validate_packet;
use midi2::detail::common_err_strings::ERR_INCORRECT_OP_CODE;
use midi2::{BufferOverflow, Error, InvalidData, U4, U7};

#[test]
fn deserialize() {
    assert_eq!(
        Message::try_from_ump(&[0x14F1_5300]),
        Ok(Message::new(U4::new(0x4), U7::new(0x53)))
    );
}

#[test]
fn serialize() {
    assert_eq!(
        Message::new(U4::new(0x5), U7::new(0x2A)).to_ump(&mut [0x0]),
        &[0x15F1_2A00],
    );
}

#[test]
fn a_value_message_rejects_other_words() {
    assert_eq!(Message::try_from_ump(&[]), Err(Error::BufferOverflow(BufferOverflow)));
    assert_eq!(
        Message::try_from_ump(&[0x24F1_5300]),
        Err(Error::InvalidData(InvalidData(ERR_INCORRECT_UMP_MESSAGE_TYPE)))
    );
    assert_eq!(
        Message::try_from_ump(&[0x14F2_5300]),
        Err(Error::InvalidData(InvalidData(ERR_UNKNOWN_STATUS)))
    );
    let message = Message::from_ump(&[0x1CF1_FF00]);
    assert_eq!(message.group(), U4::new(0xC));
    assert_eq!(message.time_code(), U7::new(0x7F));
    assert_eq!(message.to_ump(&mut [0xFFFF_FFFF, 0x1]), &[0x1CF1_7F00]);
}

#[test]
fn the_status_byte_selects_the_message() {
    assert!(matches!(
        SystemCommonBorrowed::from_data(&[0x10FE_0000]),
        Ok(SystemCommonBorrowed::ActiveSensing(_))
    ));
    assert!(matches!(
        SystemCommonBorrowed::from_data(&[0x10FB_0000]),
        Ok(SystemCommonBorrowed::Continue(_))
    ));
    assert!(matches!(
        SystemCommonBorrowed::from_data(&[0x10FF_0000]),
        Ok(SystemCommonBorrowed::Reset(_))
    ));
    assert!(matches!(
        SystemCommonBorrowed::from_data(&[0x10F2_0000]),
        Ok(SystemCommonBorrowed::SongPositionPointer(_))
    ));
    assert!(matches!(
        SystemCommonBorrowed::from_data(&[0x10F3_0000]),
        Ok(SystemCommonBorrowed::SongSelect(_))
    ));
    assert!(matches!(
        SystemCommonBorrowed::from_data(&[0x10FA_0000]),
        Ok(SystemCommonBorrowed::Start(_))
    ));
    assert!(matches!(
        SystemCommonBorrowed::from_data(&[0x10FC_0000]),
        Ok(SystemCommonBorrowed::Stop(_))
    ));
    assert!(matches!(
        SystemCommonBorrowed::from_data(&[0x10F1_0000]),
        Ok(SystemCommonBorrowed::TimeCode(_))
    ));
    assert!(matches!(
        SystemCommonBorrowed::from_data(&[0x10F8_0000]),
        Ok(SystemCommonBorrowed::TimingClock(_))
    ));
    assert!(matches!(
        SystemCommonBorrowed::from_data(&[0x10F6_0000]),
        Ok(SystemCommonBorrowed::TuneRequest(_))
    ));
}

#[test]
fn the_family_rejects_what_it_does_not_know() {
    assert_eq!(
        SystemCommonBorrowed::validate_data(&[]),
        Err(Error::BufferOverflow(BufferOverflow))
    );
    assert_eq!(
        SystemCommonBorrowed::validate_data(&[0x10F4_0000]),
        Err(Error::InvalidData(InvalidData(ERR_UNKNOWN_STATUS)))
    );
    assert_eq!(
        SystemCommonBorrowed::validate_data(&[0x20FE_0000]),
        Err(Error::InvalidData(InvalidData(ERR_INCORRECT_UMP_MESSAGE_TYPE)))
    );
    assert_eq!(SystemCommonBorrowed::validate_data(&[0x10FE_0000]), Ok(()));
    assert_eq!(
        StartBorrowed::from_data(&[0x10FC_0000]),
        Err(Error::InvalidData(InvalidData(ERR_UNKNOWN_STATUS)))
    );
}

#[test]
fn data_and_group_go_through_the_variant() {
    let word = [0x17F3_2A00];
    let message = SystemCommonBorrowed::from_data(&word).unwrap();
    assert_eq!(message.data(), &word[..]);
    assert_eq!(message.group(), U4::new(0x7));
    let song = SongSelectBorrowed::from_data(&word).unwrap();
    assert_eq!(song.first_data_byte(), U7::new(0x2A));
    assert_eq!(song.second_data_byte(), U7::new(0x00));
    let owned = SystemCommonOwned::SongSelect(song.into_owned());
    assert_eq!(owned.data(), &word[..]);
    assert_eq!(owned.group(), U4::new(0x7));
    let time = TimeCodeBorrowed::from_data(&[0x12F1_0500, 0x9]).unwrap();
    assert_eq!(SystemCommonOwned::TimeCode(time.into_owned()).data(), &[0x12F1_0500][..]);
}

#[test]
fn a_simple_message_is_built_from_its_status() {
    let mut buffer = [0xFFFF_FFFF, 0xFFFF_FFFF];
    assert_eq!(
        TuneRequestBorrowed::builder(&mut buffer).group(U4::new(0x9)).build().unwrap().data(),
        &[0x19F6_0000][..],
    );
    assert_eq!(buffer[1], 0xFFFF_FFFF);
    assert_eq!(
        TuneRequestBorrowed::builder(&mut []).group(U4::new(0x9)).build(),
        Err(Error::BufferOverflow(BufferOverflow)),
    );
}

#[test]
fn utility_packets_are_of_type_zero() {
    assert_eq!(validate_packet(&[0x0020_0000], U4::new(0x2)), Ok(()));
    assert_eq!(validate_packet(&[], U4::new(0x2)), Err(Error::BufferOverflow(BufferOverflow)));
    assert_eq!(
        validate_packet(&[0x1020_0000], U4::new(0x2)),
        Err(Error::InvalidData(InvalidData(ERR_INCORRECT_UMP_MESSAGE_TYPE)))
    );
    assert_eq!(
        validate_packet(&[0x0010_0000], U4::new(0x2)),
        Err(Error::InvalidData(InvalidData(ERR_INCORRECT_OP_CODE)))
    );
}

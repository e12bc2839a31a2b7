use midi2::message::midi1_channel_voice::{ChannelPressureMessage, NoteOnMessage};
use midi2::message::midi2_channel_voice::{
    AssignablePerNoteControllerMessage, RegisteredControllerMessage,
};
use midi2::detail::common_err_strings::{ERR_INCORRECT_OP_CODE, ERR_INCORRECT_UMP_MESSAGE_TYPE};
use midi2::{BufferOverflow, Error, InvalidData, U4, U7};

#[test]
fn channel_pressure_builder() {
    assert_eq!(
        ChannelPressureMessage::builder(&mut [0x1234_5678])
            .group(U4::new(0xF))
            .channel(U4::new(0x6))
            .pressure(U7::new(0x09))
            .build(),
        Ok(ChannelPressureMessage::from_data(&[0x2FD6_0900]).unwrap()),
    );
}

#[test]
fn channel_pressure_group() {
    assert_eq!(
        ChannelPressureMessage::from_data(&[0x2FD6_0900]).unwrap().group(),
        U4::new(0xF),
    );
}

#[test]
fn channel_pressure_channel() {
    assert_eq!(
        ChannelPressureMessage::from_data(&[0x2FD6_0900]).unwrap().channel(),
        U4::new(0x6),
    );
}

#[test]
fn pressure() {
    assert_eq!(
        ChannelPressureMessage::from_data(&[0x2FD6_0900]).unwrap().pressure(),
        U7::new(0x09),
    );
}

#[test]
fn note_on_builder() {
    assert_eq!(
        NoteOnMessage::builder(&mut [0xFFFF_FFFF])
            .group(U4::new(0xD))
            .channel(U4::new(0xE))
            .note(U7::new(0x75))
            .velocity(U7::new(0x3D))
            .build(),
        Ok(NoteOnMessage::from_data(&[0x2D9E_753D]).unwrap()),
    );
}

#[test]
fn note_on_group() {
    assert_eq!(NoteOnMessage::from_data(&[0x2D9E_753D]).unwrap().group(), U4::new(0xD));
}

#[test]
fn note_on_channel() {
    assert_eq!(NoteOnMessage::from_data(&[0x2D9E_753D]).unwrap().channel(), U4::new(0xE));
}

#[test]
fn note_on_note() {
    assert_eq!(NoteOnMessage::from_data(&[0x2D9E_753D]).unwrap().note(), U7::new(0x75));
}

#[test]
fn velocity() {
    assert_eq!(NoteOnMessage::from_data(&[0x2D9E_753D]).unwrap().velocity(), U7::new(0x3D));
}

#[test]
fn assignable_per_note_controller_builder() {
    assert_eq!(
        AssignablePerNoteControllerMessage::builder(&mut [0xAAAA_AAAA, 0x5555_5555])
            .group(U4::new(0x2))
            .channel(U4::new(0x4))
            .note(U7::new(0x6F))
            .index(0xB1)
            .controller_data(0x46105EE5)
            .build(),
        Ok(AssignablePerNoteControllerMessage::from_data(&[0x4214_6FB1, 0x46105EE5]).unwrap()),
    );
}

#[test]
fn assignable_per_note_controller_group() {
    assert_eq!(
        AssignablePerNoteControllerMessage::from_data(&[0x4214_6FB1, 0x46105EE5])
            .unwrap()
            .group(),
        U4::new(0x2),
    );
}

#[test]
fn assignable_per_note_controller_channel() {
    assert_eq!(
        AssignablePerNoteControllerMessage::from_data(&[0x4214_6FB1, 0x46105EE5])
            .unwrap()
            .channel(),
        U4::new(0x4),
    );
}

#[test]
fn assignable_per_note_controller_note() {
    assert_eq!(
        AssignablePerNoteControllerMessage::from_data(&[0x4214_6FB1, 0x46105EE5])
            .unwrap()
            .note(),
        U7::new(0x6F),
    );
}

#[test]
fn assignable_per_note_controller_index() {
    assert_eq!(
        AssignablePerNoteControllerMessage::from_data(&[0x4214_6FB1, 0x46105EE5])
            .unwrap()
            .index(),
        0xB1,
    );
}

#[test]
fn assignable_per_note_controller_controller_data() {
    assert_eq!(
        AssignablePerNoteControllerMessage::from_data(&[0x4214_6FB1, 0x46105EE5])
            .unwrap()
            .controller_data(),
        0x46105EE5,
    );
}

#[test]
fn registered_controller_builder() {
    assert_eq!(
        RegisteredControllerMessage::builder(&mut [0x0101_0101, 0x1010_1010])
            .group(U4::new(0xA))
            .channel(U4::new(0xB))
            .bank(U7::new(0x7D))
            .index(U7::new(0x64))
            .controller_data(0x46845E00)
            .build(),
        Ok(RegisteredControllerMessage::from_data(&[0x4A2B_7D64, 0x46845E00]).unwrap()),
    );
}

#[test]
fn registered_controller_group() {
    assert_eq!(
        RegisteredControllerMessage::from_data(&[0x4A2B_7D64, 0x46845E00]).unwrap().group(),
        U4::new(0xA),
    );
}

#[test]
fn registered_controller_channel() {
    assert_eq!(
        RegisteredControllerMessage::from_data(&[0x4A2B_7D64, 0x46845E00]).unwrap().channel(),
        U4::new(0xB),
    );
}

#[test]
fn bank() {
    assert_eq!(
        RegisteredControllerMessage::from_data(&[0x4A2B_7D64, 0x46845E00]).unwrap().bank(),
        U7::new(0x7D),
    );
}

#[test]
fn registered_controller_index() {
    assert_eq!(
        RegisteredControllerMessage::from_data(&[0x4A2B_7D64, 0x46845E00]).unwrap().index(),
        U7::new(0x64),
    );
}

#[test]
fn registered_controller_controller_data() {
    assert_eq!(
        RegisteredControllerMessage::from_data(&[0x4A2B_7D64, 0x46845E00])
            .unwrap()
            .controller_data(),
        0x46845E00,
    );
}

#[test]
fn registered_controller_data() {
    assert_eq!(
        RegisteredControllerMessage::from_data(&[0x4A2B_7D64, 0x46845E00]).unwrap().data(),
        &[0x4A2B_7D64, 0x46845E00],
    );
}

#[test]
fn builders_report_a_buffer_that_is_too_short() {
    assert_eq!(
        NoteOnMessage::builder(&mut []).group(U4::new(0x1)).build(),
        Err(Error::BufferOverflow(BufferOverflow)),
    );
    assert_eq!(
        ChannelPressureMessage::builder(&mut []).build(),
        Err(Error::BufferOverflow(BufferOverflow)),
    );
    assert_eq!(
        RegisteredControllerMessage::builder(&mut [0x0]).controller_data(0x1).build(),
        Err(Error::BufferOverflow(BufferOverflow)),
    );
    assert_eq!(
        AssignablePerNoteControllerMessage::builder(&mut [0x0]).index(0x1).build(),
        Err(Error::BufferOverflow(BufferOverflow)),
    );
}

#[test]
fn builders_write_the_leading_words_only() {
    let mut buffer = [0xFFFF_FFFF, 0xFFFF_FFFF];
    assert_eq!(
        NoteOnMessage::builder(&mut buffer).build().unwrap().data(),
        &[0x2090_0000][..],
    );
    assert_eq!(buffer, [0x2090_0000, 0xFFFF_FFFF]);
    let mut longer = [0xFFFF_FFFF, 0xFFFF_FFFF, 0xFFFF_FFFF];
    assert_eq!(
        RegisteredControllerMessage::builder(&mut longer).build().unwrap().data(),
        &[0x4020_0000, 0x0][..],
    );
    assert_eq!(longer, [0x4020_0000, 0x0, 0xFFFF_FFFF]);
}

#[test]
fn validation_names_the_fault() {
    assert_eq!(NoteOnMessage::from_data(&[]), Err(Error::BufferOverflow(BufferOverflow)));
    assert_eq!(
        NoteOnMessage::from_data(&[0x4D9E_753D]),
        Err(Error::InvalidData(InvalidData(ERR_INCORRECT_UMP_MESSAGE_TYPE))),
    );
    assert_eq!(
        NoteOnMessage::from_data(&[0x2D8E_753D]),
        Err(Error::InvalidData(InvalidData(ERR_INCORRECT_OP_CODE))),
    );
    assert_eq!(
        RegisteredControllerMessage::from_data(&[0x4A2B_7D64]),
        Err(Error::BufferOverflow(BufferOverflow)),
    );
    assert_eq!(
        RegisteredControllerMessage::from_data(&[0x2A2B_7D64]),
        Err(Error::InvalidData(InvalidData(ERR_INCORRECT_UMP_MESSAGE_TYPE))),
    );
    assert_eq!(
        AssignablePerNoteControllerMessage::from_data(&[0x4A2B_7D64, 0x0]),
        Err(Error::InvalidData(InvalidData(ERR_INCORRECT_OP_CODE))),
    );
    assert_eq!(NoteOnMessage::validate_data(&[0x2D9E_753D]), Ok(()));
}

#[test]
fn data_bytes_read_back_as_seven_bits() {
    assert_eq!(NoteOnMessage::from_data(&[0x2090_FF80]).unwrap().note(), U7::new(0x7F));
    assert_eq!(NoteOnMessage::from_data(&[0x2090_FF80]).unwrap().velocity(), U7::new(0x00));
}

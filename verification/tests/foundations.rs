use midi2::buffer::{
    Buffer, BufferDefault, BufferMut, BufferResize, BufferTryResize, Unit, UnitId,
};
use midi2::detail::BitOps;
use midi2::error::SysexTryResizeError;
use midi2::representation::{buffer_generic, representation, BoundKind, Representation};
use midi2::{BufferOverflow, U10, U2, U4, U7};

#[test]
fn nibbles_are_counted_from_the_top() {
    let word: u32 = 0x1234_5678;
    let expected = [0x1, 0x2, 0x3, 0x4, 0x5, 0x6, 0x7, 0x8];
    for (i, e) in expected.iter().enumerate() {
        assert_eq!(word.nibble(i), U4::new(*e));
    }
    assert_eq!(word.octet(0), 0x12);
    assert_eq!(word.octet(3), 0x78);
    assert_eq!(word.crumb(0), U2::new(0x0));
    assert_eq!(word.crumb(1), U2::new(0x1));
    assert_eq!(word.crumb(15), U2::new(0x0));
    assert_eq!(word.crumb(14), U2::new(0x2));
}

#[test]
fn a_write_changes_its_field_and_nothing_else() {
    for i in 0..8 {
        let mut word: u32 = 0xFFFF_FFFF;
        word.set_nibble(i, U4::new(0x0));
        assert_eq!(word, !(0xF000_0000u32 >> (4 * i)));
        let mut zero: u32 = 0;
        zero.set_nibble(i, U4::new(0xA));
        assert_eq!(zero, 0xA000_0000u32 >> (4 * i));
    }
    for i in 0..16 {
        let mut word: u32 = 0xFFFF_FFFF;
        word.set_crumb(i, U2::new(0x1));
        assert_eq!(word, !(0x8000_0000u32 >> (2 * i)));
    }
    for i in 0..4 {
        let mut word: u32 = 0x0102_0304;
        word.set_octet(i, 0xFF);
        assert_eq!(word, 0x0102_0304 | (0xFF00_0000u32 >> (8 * i)));
    }
}

#[test]
fn narrow_integers_hold_what_fits() {
    assert_eq!(U4::new(0xF).value(), 0xF);
    assert_eq!(U4::try_new(0x10), None);
    assert_eq!(U4::try_new(0xF), Some(U4::new(0xF)));
    assert_eq!(U2::try_new(0x4), None);
    assert_eq!(U2::try_new(0x3).unwrap().value(), 0x3);
    assert_eq!(U7::try_new(0x80), None);
    assert_eq!(U7::try_new(0x7F).unwrap().value(), 0x7F);
    assert_eq!(U10::try_new(0x400), None);
    assert_eq!(U10::try_new(0x3FF).unwrap().value(), 0x3FF);
    assert_eq!(U4::default().value(), 0);
    assert_eq!(U7::default(), U7::new(0));
    assert_eq!(midi2::util::truncate_u7(0xFF), U7::new(0x7F));
    assert_eq!(midi2::util::truncate_u7(0x80), U7::new(0x00));
}

#[test]
fn units_know_their_kind_and_their_zero() {
    assert_eq!(<u8 as Unit>::unit_id(), UnitId::U8);
    assert_eq!(<u32 as Unit>::unit_id(), UnitId::U32);
    assert_eq!(<u8 as Unit>::zero(), 0u8);
    assert_eq!(<u32 as Unit>::zero(), 0u32);
}

#[test]
fn a_vector_grows_with_zeros_and_shrinks() {
    let mut buffer: Vec<u32> = <Vec<u32> as BufferDefault>::default();
    assert_eq!(buffer.buffer(), &[][..]);
    BufferResize::resize(&mut buffer, 2);
    buffer.buffer_mut()[1] = 7;
    assert_eq!(buffer.try_resize(4), Ok(()));
    assert_eq!(buffer.buffer(), &[0, 7, 0, 0][..]);
    assert_eq!(buffer.try_resize(1), Ok(()));
    assert_eq!(buffer.buffer(), &[0][..]);
}

#[test]
fn fixed_storage_keeps_its_length_and_refuses_more() {
    let mut array: [u8; 3] = <[u8; 3] as BufferDefault>::default();
    assert_eq!(array.buffer(), &[0, 0, 0][..]);
    array.buffer_mut()[2] = 9;
    assert_eq!(array.try_resize(3), Ok(()));
    assert_eq!(array.try_resize(4), Err(BufferOverflow));
    BufferResize::resize(&mut array, 1);
    assert_eq!(array.buffer(), &[0, 0, 9][..]);
    let mut backing = [1u32, 2];
    let mut region = &mut backing[..];
    assert_eq!(region.try_resize(2), Ok(()));
    assert_eq!(region.try_resize(3), Err(BufferOverflow));
    region.buffer_mut()[0] = 5;
    assert_eq!(region.buffer(), &[5, 2][..]);
    let view = &backing[..];
    assert_eq!(view.buffer(), &[5, 2][..]);
}

#[test]
fn a_failed_resize_is_an_overflow() {
    assert_eq!(BufferOverflow::from(SysexTryResizeError), BufferOverflow);
}

#[test]
fn the_first_buffer_parameter_decides() {
    assert_eq!(
        representation(&vec![BoundKind::Other, BoundKind::Buffer]),
        Some(Representation::UmpOrBytes)
    );
    assert_eq!(
        representation(&vec![BoundKind::Buffer, BoundKind::Bytes]),
        Some(Representation::Bytes)
    );
    assert_eq!(
        representation(&vec![BoundKind::Bytes, BoundKind::Buffer, BoundKind::Ump]),
        Some(Representation::Ump)
    );
    assert_eq!(representation(&vec![BoundKind::Other]), None);
    assert_eq!(representation(&vec![]), None);
    assert_eq!(buffer_generic(&vec![]), None);
    assert_eq!(buffer_generic(&vec![vec![BoundKind::Other], vec![]]), None);
    assert_eq!(
        buffer_generic(&vec![
            vec![BoundKind::Other],
            vec![BoundKind::Bytes],
            vec![BoundKind::Ump],
        ]),
        Some((1, Representation::Bytes))
    );
}

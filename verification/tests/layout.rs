use wintab_lite::layout::{lay_out, FieldShape, RecordShape};
use wintab_lite::wire::{
    address_bytes, push_address, push_i32, push_u16, push_u32, read_address, read_i32, read_u16,
    read_u32, reinterpret_signed, reinterpret_unsigned,
};

fn field(size: usize, align: usize) -> FieldShape {
    FieldShape { size, align }
}

#[test]
fn fields_are_aligned() {
    let shape = lay_out(&vec![field(1, 1), field(4, 4), field(2, 2), field(8, 8)], 0).unwrap();
    assert_eq!(shape, RecordShape { offsets: vec![0, 4, 8, 16], size: 24, align: 8 });
}

#[test]
fn record_ends_at_a_multiple_of_its_alignment() {
    let shape = lay_out(&vec![field(8, 8), field(1, 1)], 0).unwrap();
    assert_eq!(shape, RecordShape { offsets: vec![0, 8], size: 16, align: 8 });
}

#[test]
fn packing_caps_the_alignment() {
    let fields = vec![field(8, 8), field(4, 4), field(4, 4), field(12, 4)];
    let loose = lay_out(&fields, 0).unwrap();
    assert_eq!(loose, RecordShape { offsets: vec![0, 8, 12, 16], size: 32, align: 8 });
    let packed = lay_out(&fields, 4).unwrap();
    assert_eq!(packed, RecordShape { offsets: vec![0, 8, 12, 16], size: 28, align: 4 });
    let tight = lay_out(&vec![field(1, 1), field(4, 4), field(2, 2)], 1).unwrap();
    assert_eq!(tight, RecordShape { offsets: vec![0, 1, 5], size: 7, align: 1 });
    let halves = lay_out(&vec![field(1, 1), field(4, 4), field(2, 2)], 2).unwrap();
    assert_eq!(halves, RecordShape { offsets: vec![0, 2, 6], size: 8, align: 2 });
}

#[test]
fn packet_without_packing_would_be_longer() {
    let mut fields = vec![field(8, 8)];
    for _ in 0..6 {
        fields.push(field(4, 4));
    }
    fields.push(field(12, 4));
    fields.push(field(4, 4));
    fields.push(field(4, 4));
    fields.push(field(12, 4));
    fields.push(field(12, 4));
    assert_eq!(lay_out(&fields, 4).unwrap().size, 76);
    assert_eq!(lay_out(&fields, 0).unwrap().size, 80);
    fields[0] = field(4, 4);
    assert_eq!(lay_out(&fields, 4).unwrap().size, 72);
    assert_eq!(lay_out(&fields, 0).unwrap().size, 72);
}

#[test]
fn empty_record() {
    let shape = lay_out(&Vec::new(), 0).unwrap();
    assert_eq!(shape, RecordShape { offsets: vec![], size: 0, align: 1 });
}

#[test]
fn no_layout_without_an_alignment() {
    assert_eq!(lay_out(&vec![field(4, 4), field(4, 0)], 0), None);
    assert_eq!(lay_out(&vec![field(0, 0)], 4), None);
}

#[test]
fn no_layout_beyond_the_machine() {
    assert_eq!(lay_out(&vec![field(usize::MAX, 1), field(1, 1)], 0), None);
    assert_eq!(lay_out(&vec![field(usize::MAX - 1, 1), field(4, 4)], 0), None);
    assert_eq!(lay_out(&vec![field(usize::MAX, 4)], 0), None);
    assert_eq!(
        lay_out(&vec![field(usize::MAX, 1)], 0),
        Some(RecordShape { offsets: vec![0], size: usize::MAX, align: 1 })
    );
}

#[test]
fn integers_stand_lowest_byte_first() {
    let mut out: Vec<u8> = Vec::new();
    push_u16(&mut out, 0x0102);
    push_u32(&mut out, 0x0304_0506);
    push_i32(&mut out, -2);
    assert_eq!(out, vec![0x02, 0x01, 0x06, 0x05, 0x04, 0x03, 0xFE, 0xFF, 0xFF, 0xFF]);
    assert_eq!(read_u16(&out, 0), 0x0102);
    assert_eq!(read_u32(&out, 2), 0x0304_0506);
    assert_eq!(read_i32(&out, 6), -2);
    assert_eq!(read_u16(&out, 1), 0x0601);
}

#[test]
fn addresses_have_the_size_of_the_machine() {
    assert_eq!(address_bytes(), std::mem::size_of::<usize>());
    let mut out: Vec<u8> = vec![0xEE];
    push_address(&mut out, usize::MAX - 1);
    assert_eq!(out.len(), 1 + std::mem::size_of::<usize>());
    assert_eq!(out[1], 0xFE);
    assert!(out[2..].iter().all(|b| *b == 0xFF));
    assert_eq!(read_address(&out, 1), usize::MAX - 1);
    let mut out: Vec<u8> = Vec::new();
    push_address(&mut out, 0x0102_0304);
    assert_eq!(&out[..4], &[4, 3, 2, 1]);
    assert_eq!(read_address(&out, 0), 0x0102_0304);
}

#[test]
fn bits_read_signed_and_unsigned() {
    assert_eq!(reinterpret_signed(0), 0);
    assert_eq!(reinterpret_signed(0x7FFF_FFFF), i32::MAX);
    assert_eq!(reinterpret_signed(0x8000_0000), i32::MIN);
    assert_eq!(reinterpret_signed(0xFFFF_FFFF), -1);
    assert_eq!(reinterpret_unsigned(-1), 0xFFFF_FFFF);
    assert_eq!(reinterpret_unsigned(i32::MIN), 0x8000_0000);
    assert_eq!(reinterpret_unsigned(5), 5);
}

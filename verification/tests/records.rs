use wintab_lite::{
    Bitmask, ButtonChange, ButtonChangeType, CString40, Orientation, Packet, Rotation, AXIS, CXL,
    CXO, CXS, FIX32, HCTX, LOGCONTEXT, TPS, TU, WTPKT, XY, XYZ,
};

#[test]
fn test_struct_sizes() {
    let size_required: u32 = 172;
    let size_of_type = LOGCONTEXT::SIZE;
    assert_eq!(size_required as usize, size_of_type);
    assert_eq!(size_required as usize, LOGCONTEXT::shape().size);
    assert_eq!(size_required as usize, LOGCONTEXT::default().to_bytes().len());
}

#[test]
fn test_struct_content() {
    let wintab_context = LOGCONTEXT::default();
    println!("sys {:#?}", wintab_context);
}

#[test]
fn test_button_change() {
    let shape = ButtonChange::shape();
    assert_eq!(shape.size, 4usize);
    assert_eq!(shape.align, 2usize);
    assert_eq!(shape.offsets[0], 0usize);
    assert_eq!(shape.offsets[1], 2usize);
    assert_eq!(ButtonChange::SIZE, 4usize);
}

fn sample_context() -> LOGCONTEXT {
    let mut context = LOGCONTEXT::default();
    context.lcName.write_str("Custom Ctx Name");
    context.lcOptions = CXO::SYSTEM().union(CXO::MESSAGES());
    context.lcStatus = CXS::ONTOP();
    context.lcLocks = CXL::INSIZE();
    context.lcMsgBase = 0x7FF0;
    context.lcDevice = 0xFFFF_FFFF;
    context.lcPktRate = 100;
    context.lcPktData = WTPKT::all();
    context.lcPktMode = WTPKT::empty();
    context.lcMoveMask = WTPKT::X().union(WTPKT::Y()).union(WTPKT::NORMAL_PRESSURE());
    context.lcBtnDnMask = Bitmask(0xFFFF_FFFF);
    context.lcBtnUpMask = Bitmask(0x0000_0003);
    context.lcInOrgXYZ = XYZ { x: 0, y: 0, z: 0 };
    context.lcInExtXYZ = XYZ { x: 15200, y: 9500, z: 0 };
    context.lcOutOrgXYZ = XYZ { x: 0, y: 0, z: 0 };
    context.lcOutExtXYZ = XYZ { x: 1920, y: -1080, z: 0 };
    context.lcSensXYZ =
        XYZ { x: FIX32::new(0x1_0000), y: FIX32::new(0x1_0000), z: FIX32::new(0x1_0000) };
    context.lcSysMode = 0;
    context.lcSysOrgXY = XY { x: 0, y: 0 };
    context.lcSysExtXY = XY { x: 1920, y: 1080 };
    context.lcSysSensXY = XY { x: FIX32::new(0x1_0000), y: FIX32::new(0x1_8000) };
    context
}

#[test]
fn default_context_is_zeros() {
    let context = LOGCONTEXT::default();
    assert_eq!(context.to_bytes(), vec![0u8; 172]);
    assert_eq!(context.lcName.read(), "");
    assert_eq!(context.lcOptions, CXO::empty());
    assert_eq!(context.lcStatus, CXS::empty());
    assert_eq!(context.lcLocks, CXL::empty());
    assert_eq!(context.lcMsgBase, 0);
    assert_eq!(context.lcDevice, 0);
    assert_eq!(context.lcPktRate, 0);
    assert_eq!(context.lcPktData, WTPKT::empty());
    assert_eq!(context.lcPktMode, WTPKT::empty());
    assert_eq!(context.lcMoveMask, WTPKT::empty());
    assert_eq!(context.lcBtnDnMask, Bitmask(0));
    assert_eq!(context.lcBtnUpMask, Bitmask(0));
    assert_eq!(context.lcInOrgXYZ, XYZ { x: 0, y: 0, z: 0 });
    assert_eq!(context.lcInExtXYZ, XYZ { x: 0, y: 0, z: 0 });
    assert_eq!(context.lcOutOrgXYZ, XYZ { x: 0, y: 0, z: 0 });
    assert_eq!(context.lcOutExtXYZ, XYZ { x: 0, y: 0, z: 0 });
    assert_eq!(context.lcSensXYZ.x.raw(), 0);
    assert_eq!(context.lcSysMode, 0);
    assert_eq!(context.lcSysOrgXY, XY { x: 0, y: 0 });
    assert_eq!(context.lcSysExtXY, XY { x: 0, y: 0 });
    assert_eq!(context.lcSysSensXY.y.raw(), 0);
}

#[test]
fn context_fields_stand_at_their_offsets() {
    let bytes = sample_context().to_bytes();
    assert_eq!(bytes.len(), 172);
    assert_eq!(&bytes[0..15], b"Custom Ctx Name");
    assert!(bytes[15..40].iter().all(|b| *b == 0));
    assert_eq!(&bytes[40..44], &[0x05, 0, 0, 0]);
    assert_eq!(&bytes[44..48], &[0x04, 0, 0, 0]);
    assert_eq!(&bytes[48..52], &[0x01, 0, 0, 0]);
    assert_eq!(&bytes[52..56], &[0xF0, 0x7F, 0, 0]);
    assert_eq!(&bytes[56..60], &[0xFF, 0xFF, 0xFF, 0xFF]);
    assert_eq!(&bytes[60..64], &[100, 0, 0, 0]);
    assert_eq!(&bytes[64..68], &[0xFF, 0x3F, 0, 0]);
    assert_eq!(&bytes[68..72], &[0, 0, 0, 0]);
    assert_eq!(&bytes[72..76], &[0x80, 0x05, 0, 0]);
    assert_eq!(&bytes[76..80], &[0xFF, 0xFF, 0xFF, 0xFF]);
    assert_eq!(&bytes[80..84], &[0x03, 0, 0, 0]);
    assert_eq!(&bytes[96..100], &15200i32.to_le_bytes());
    assert_eq!(&bytes[100..104], &9500i32.to_le_bytes());
    assert_eq!(&bytes[120..124], &1920i32.to_le_bytes());
    assert_eq!(&bytes[124..128], &(-1080i32).to_le_bytes());
    assert_eq!(&bytes[124..128], &[0xC8, 0xFB, 0xFF, 0xFF]);
    assert_eq!(&bytes[132..136], &[0, 0, 1, 0]);
    assert_eq!(&bytes[144..148], &[0, 0, 0, 0]);
    assert_eq!(&bytes[156..160], &1920i32.to_le_bytes());
    assert_eq!(&bytes[160..164], &1080i32.to_le_bytes());
    assert_eq!(&bytes[164..168], &[0, 0, 1, 0]);
    assert_eq!(&bytes[168..172], &[0, 0x80, 1, 0]);
}

#[test]
fn context_offsets_follow_the_rules_of_c() {
    let shape = LOGCONTEXT::shape();
    assert_eq!(shape.align, 4);
    assert_eq!(
        shape.offsets,
        vec![
            0, 40, 44, 48, 52, 56, 60, 64, 68, 72, 76, 80, 84, 96, 108, 120, 132, 144, 148, 156,
            164
        ]
    );
}

#[test]
fn context_is_read_back_from_its_bytes() {
    let context = sample_context();
    let bytes = context.to_bytes();
    let back = LOGCONTEXT::from_bytes(&bytes);
    assert_eq!(back, Some(context));
    assert_eq!(back.unwrap().lcName.read(), "Custom Ctx Name");
    assert_eq!(back.unwrap().lcOutExtXYZ.y, -1080);
    assert_eq!(back.unwrap().to_bytes(), bytes);
}

#[test]
fn context_needs_exactly_its_bytes() {
    let bytes = sample_context().to_bytes();
    assert_eq!(LOGCONTEXT::from_bytes(&bytes[..171]), None);
    assert_eq!(LOGCONTEXT::from_bytes(&[]), None);
    let mut longer = bytes.clone();
    longer.push(0);
    assert_eq!(LOGCONTEXT::from_bytes(&longer), None);
}

#[test]
fn context_keeps_bits_without_a_name() {
    let mut bytes = vec![0u8; 172];
    bytes[40..44].copy_from_slice(&[0xFF, 0xFF, 0xFF, 0xFF]);
    bytes[64..68].copy_from_slice(&[0x00, 0x00, 0x01, 0x00]);
    let context = LOGCONTEXT::from_bytes(&bytes).unwrap();
    assert_eq!(context.lcOptions.bits(), 0xFFFF_FFFF);
    assert_eq!(context.lcPktData.bits(), 0x1_0000);
    assert_eq!(context.to_bytes(), bytes);
}

#[test]
fn every_byte_of_a_context_counts() {
    let bytes: Vec<u8> = (0..172u32).map(|i| (i * 7 + 3) as u8).collect();
    let context = LOGCONTEXT::from_bytes(&bytes).unwrap();
    assert_eq!(context.to_bytes(), bytes);
}

#[test]
fn axis_layout() {
    let axis = AXIS {
        axMin: -5,
        axMax: 15200,
        axUnits: TU::CENTIMETERS,
        axResolution: FIX32::new(0x03E8_0000),
    };
    let bytes = axis.to_bytes();
    assert_eq!(bytes.len(), 16);
    assert_eq!(AXIS::SIZE, 16);
    assert_eq!(
        bytes,
        vec![0xFB, 0xFF, 0xFF, 0xFF, 0x60, 0x3B, 0, 0, 2, 0, 0, 0, 0, 0, 0xE8, 0x03]
    );
    assert_eq!(AXIS::from_bytes(&bytes), Some(axis));
    let shape = AXIS::shape();
    assert_eq!(shape.size, 16);
    assert_eq!(shape.align, 4);
    assert_eq!(shape.offsets, vec![0, 4, 8, 12]);
}

#[test]
fn axis_default_is_zeros() {
    let axis = AXIS::default();
    assert_eq!(axis.axMin, 0);
    assert_eq!(axis.axMax, 0);
    assert_eq!(axis.axUnits, TU::NONE);
    assert_eq!(axis.axResolution.raw(), 0);
    assert_eq!(axis.to_bytes(), vec![0u8; 16]);
}

#[test]
fn axis_refuses_bad_bytes() {
    let mut bytes = AXIS::default().to_bytes();
    assert_eq!(AXIS::from_bytes(&bytes[..15]), None);
    bytes[8] = 4;
    assert_eq!(AXIS::from_bytes(&bytes), None);
    bytes[8] = 3;
    assert_eq!(AXIS::from_bytes(&bytes).unwrap().axUnits, TU::CIRCLE);
    bytes[11] = 1;
    assert_eq!(AXIS::from_bytes(&bytes), None);
}

#[test]
fn button_change_bytes() {
    let change = ButtonChange { button_number: 0x0102, change_type: ButtonChangeType::DOWN };
    let bytes = change.to_bytes();
    assert_eq!(bytes, vec![0x02, 0x01, 0x02, 0x00]);
    assert_eq!(ButtonChange::from_bytes(&bytes), Some(change));
    assert_eq!(ButtonChange::from_bytes(&[0, 0, 3, 0]), None);
    assert_eq!(ButtonChange::from_bytes(&[0, 0, 1, 1]), None);
    assert_eq!(ButtonChange::from_bytes(&[0, 0, 1]), None);
    assert_eq!(
        ButtonChange::from_bytes(&[5, 0, 1, 0]),
        Some(ButtonChange { button_number: 5, change_type: ButtonChangeType::UP })
    );
    let none = ButtonChange::default();
    assert_eq!(none.button_number, 0);
    assert_eq!(none.change_type, ButtonChangeType::NONE);
}

fn sample_packet() -> Packet {
    Packet {
        pkContext: HCTX::new(0x1234_5678),
        pkStatus: TPS::PROXIMITY(),
        pkTime: 1000,
        pkChanged: WTPKT::X().union(WTPKT::Y()),
        pkSerialNumber: 42,
        pkCursor: 1,
        pkButtons: Bitmask(0b11),
        pkXYZ: XYZ { x: 100, y: -200, z: 3 },
        pkNormalPressure: 512,
        pkTangentPressure: 7,
        pkOrientation: Orientation { orAzimuth: 900, orAltitude: -450, orTwist: 10 },
        pkRotation: Rotation { roPitch: 1, roRoll: 2, roYaw: -3 },
    }
}

#[test]
fn packet_size_goes_by_the_address() {
    let address = std::mem::size_of::<usize>();
    assert_eq!(Packet::size(), address + 68);
    assert_eq!(Packet::default().to_bytes().len(), address + 68);
    let shape = Packet::shape();
    assert_eq!(shape.size, address + 68);
    assert_eq!(shape.align, 4);
    assert_eq!(shape.offsets.len(), 12);
    assert_eq!(shape.offsets[0], 0);
    assert_eq!(shape.offsets[1], address);
    assert_eq!(shape.offsets[7], address + 24);
    assert_eq!(shape.offsets[11], address + 56);
}

#[test]
fn packet_fields_stand_at_their_offsets() {
    let n = std::mem::size_of::<usize>();
    let bytes = sample_packet().to_bytes();
    assert_eq!(bytes.len(), n + 68);
    assert_eq!(&bytes[0..n], &0x1234_5678usize.to_le_bytes());
    assert_eq!(&bytes[n..n + 4], &[1, 0, 0, 0]);
    assert_eq!(&bytes[n + 4..n + 8], &1000u32.to_le_bytes());
    assert_eq!(&bytes[n + 8..n + 12], &[0x80, 0x01, 0, 0]);
    assert_eq!(&bytes[n + 12..n + 16], &[42, 0, 0, 0]);
    assert_eq!(&bytes[n + 16..n + 20], &[1, 0, 0, 0]);
    assert_eq!(&bytes[n + 20..n + 24], &[3, 0, 0, 0]);
    assert_eq!(&bytes[n + 24..n + 28], &100i32.to_le_bytes());
    assert_eq!(&bytes[n + 28..n + 32], &(-200i32).to_le_bytes());
    assert_eq!(&bytes[n + 32..n + 36], &3i32.to_le_bytes());
    assert_eq!(&bytes[n + 36..n + 40], &512u32.to_le_bytes());
    assert_eq!(&bytes[n + 40..n + 44], &7u32.to_le_bytes());
    assert_eq!(&bytes[n + 44..n + 48], &900i32.to_le_bytes());
    assert_eq!(&bytes[n + 48..n + 52], &(-450i32).to_le_bytes());
    assert_eq!(&bytes[n + 52..n + 56], &10i32.to_le_bytes());
    assert_eq!(&bytes[n + 56..n + 60], &1i32.to_le_bytes());
    assert_eq!(&bytes[n + 60..n + 64], &2i32.to_le_bytes());
    assert_eq!(&bytes[n + 64..n + 68], &(-3i32).to_le_bytes());
}

#[test]
fn packet_is_read_back_from_its_bytes() {
    let packet = sample_packet();
    let bytes = packet.to_bytes();
    assert_eq!(Packet::from_bytes(&bytes), Some(packet));
    assert_eq!(Packet::from_bytes(&bytes[1..]), None);
    let mut handle_only = vec![0u8; Packet::size()];
    for byte in handle_only.iter_mut().take(std::mem::size_of::<usize>()) {
        *byte = 0xAB;
    }
    let read = Packet::from_bytes(&handle_only).unwrap();
    assert_eq!(read.pkContext.raw(), usize::from_le_bytes([0xAB; std::mem::size_of::<usize>()]));
    assert_eq!(read.to_bytes(), handle_only);
}

#[test]
fn packet_default_is_zeros() {
    let packet = Packet::default();
    assert!(packet.pkContext.is_null());
    assert_eq!(packet.pkStatus, TPS::empty());
    assert_eq!(packet.pkTime, 0);
    assert_eq!(packet.pkChanged, WTPKT::empty());
    assert_eq!(packet.pkSerialNumber, 0);
    assert_eq!(packet.pkCursor, 0);
    assert_eq!(packet.pkButtons, Bitmask(0));
    assert_eq!(packet.pkXYZ, XYZ { x: 0, y: 0, z: 0 });
    assert_eq!(packet.pkNormalPressure, 0);
    assert_eq!(packet.pkTangentPressure, 0);
    assert_eq!(packet.pkOrientation, Orientation::default());
    assert_eq!(packet.pkRotation, Rotation::default());
    assert_eq!(packet.to_bytes(), vec![0u8; Packet::size()]);
}

#[test]
fn coordinates_go_out_and_in() {
    let point = XYZ { x: 1i32, y: -1i32, z: i32::MIN };
    let mut out: Vec<u8> = Vec::new();
    point.write_to(&mut out);
    assert_eq!(out, vec![1, 0, 0, 0, 0xFF, 0xFF, 0xFF, 0xFF, 0, 0, 0, 0x80]);
    assert_eq!(XYZ::<i32>::read_at(&out, 0), point);

    let factor = XYZ { x: FIX32::new(1), y: FIX32::new(0x0102_0304), z: FIX32::new(u32::MAX) };
    let mut out: Vec<u8> = vec![9];
    factor.write_to(&mut out);
    assert_eq!(out, vec![9, 1, 0, 0, 0, 4, 3, 2, 1, 0xFF, 0xFF, 0xFF, 0xFF]);
    assert_eq!(XYZ::<FIX32>::read_at(&out, 1), factor);

    let pixel = XY { x: 1920i32, y: -1080i32 };
    let mut out: Vec<u8> = Vec::new();
    pixel.write_to(&mut out);
    assert_eq!(out.len(), 8);
    assert_eq!(XY::<i32>::read_at(&out, 0), pixel);

    let pair = XY { x: FIX32::new(0x1_0000), y: FIX32::new(0x8000) };
    let mut out: Vec<u8> = Vec::new();
    pair.write_to(&mut out);
    assert_eq!(out, vec![0, 0, 1, 0, 0, 0x80, 0, 0]);
    assert_eq!(XY::<FIX32>::read_at(&out, 0), pair);
}

#[test]
fn coordinates_default_to_zero() {
    assert_eq!(XYZ::<i32>::default(), XYZ { x: 0, y: 0, z: 0 });
    assert_eq!(XY::<i32>::default(), XY { x: 0, y: 0 });
    assert_eq!(XY::<FIX32>::default().x.raw(), 0);
    assert_eq!(XYZ::<FIX32>::default().z.raw(), 0);
}

#[test]
fn angles_go_out_and_in() {
    let orientation = Orientation { orAzimuth: 1800, orAltitude: -900, orTwist: 0 };
    let mut out: Vec<u8> = Vec::new();
    orientation.write_to(&mut out);
    assert_eq!(out.len(), Orientation::SIZE);
    assert_eq!(Orientation::read_at(&out, 0), orientation);
    let rotation = Rotation { roPitch: -1, roRoll: 2, roYaw: 3 };
    rotation.write_to(&mut out);
    assert_eq!(out.len(), 24);
    assert_eq!(Rotation::read_at(&out, 12), rotation);
    assert_eq!(&out[12..16], &[0xFF, 0xFF, 0xFF, 0xFF]);
}

#[test]
fn name_can_be_set_on_a_context() {
    let mut context = LOGCONTEXT::default();
    context.lcName.write_str("Pressure test");
    let bytes = context.to_bytes();
    let back = LOGCONTEXT::from_bytes(&bytes).unwrap();
    assert_eq!(back.lcName.read(), "Pressure test");
    assert_eq!(back.lcName, {
        let mut name = CString40::default();
        name.write_str("Pressure test");
        name
    });
}

#[test]
fn packet_fields_read_the_other_way() {
    let mut packet = sample_packet();
    assert_eq!(packet.normal_pressure_change(), 512);
    packet.pkNormalPressure = 0xFFFF_FFF6;
    packet.pkTangentPressure = 0x8000_0000;
    assert_eq!(packet.normal_pressure_change(), -10);
    assert_eq!(packet.tangent_pressure_change(), i32::MIN);
    assert_eq!(packet.position_unsigned(), XYZ { x: 100, y: 0xFFFF_FF38, z: 3 });
}

#[test]
fn packet_buttons_read_as_a_change() {
    let mut packet = sample_packet();
    packet.pkButtons = Bitmask(0x0002_0005);
    assert_eq!(
        packet.button_change(),
        Some(ButtonChange { button_number: 5, change_type: ButtonChangeType::DOWN })
    );
    packet.pkButtons = Bitmask(0x0001_FFFF);
    assert_eq!(
        packet.button_change(),
        Some(ButtonChange { button_number: 0xFFFF, change_type: ButtonChangeType::UP })
    );
    packet.pkButtons = Bitmask(0);
    assert_eq!(packet.button_change(), Some(ButtonChange::default()));
    packet.pkButtons = Bitmask(0x0003_0001);
    assert_eq!(packet.button_change(), None);
    packet.pkButtons = Bitmask(0xFFFF_FFFF);
    assert_eq!(packet.button_change(), None);
}

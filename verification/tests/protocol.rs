use wintab_lite::protocol::check_query;
use wintab_lite::{
    Bitmask, Connection, Orientation, Packet, ProtocolError, Rotation, Stage, HCTX, LOGCONTEXT,
    TPS, WTPKT, XYZ,
};

fn driver_default() -> Vec<u8> {
    let mut context = LOGCONTEXT::default();
    context.lcName.write_str("WACOM Tablet");
    context.lcPktRate = 100;
    context.lcPktData = WTPKT::all();
    context.lcOutExtXYZ = XYZ { x: 1920, y: 1080, z: 0 };
    context.to_bytes()
}

fn packet_with_changes(changed: WTPKT, serial: u32) -> Packet {
    Packet {
        pkContext: HCTX::new(0x4000),
        pkStatus: TPS::empty(),
        pkTime: 10 * serial,
        pkChanged: changed,
        pkSerialNumber: serial,
        pkCursor: 1,
        pkButtons: Bitmask(0),
        pkXYZ: XYZ { x: serial as i32, y: 2, z: 0 },
        pkNormalPressure: 300,
        pkTangentPressure: 0,
        pkOrientation: Orientation::default(),
        pkRotation: Rotation::default(),
    }
}

fn open_connection(asked: WTPKT) -> Connection {
    let mut connection = Connection::new();
    connection.populate(172, &driver_default()).unwrap();
    let mut context = connection.context();
    context.lcPktData = asked;
    connection.edit(context).unwrap();
    connection.opened(HCTX::new(0x4000), context).unwrap();
    connection
}

#[test]
fn connection_goes_through_its_life() {
    let mut connection = Connection::new();
    assert_eq!(connection.stage(), Stage::Unconfigured);
    assert_eq!(connection.handle(), None);

    assert_eq!(connection.populate(172, &driver_default()), Ok(()));
    assert_eq!(connection.stage(), Stage::Configured);
    assert_eq!(connection.context().lcName.read(), "WACOM Tablet");
    assert_eq!(connection.context().lcPktData, WTPKT::all());

    let mut context = connection.context();
    context.lcPktData = WTPKT::X().union(WTPKT::Y()).union(WTPKT::NORMAL_PRESSURE());
    assert_eq!(connection.edit(context), Ok(()));
    assert_eq!(connection.stage(), Stage::Configured);
    assert_eq!(connection.context().lcPktData.bits(), 0x580);

    let mut negotiated = connection.context();
    negotiated.lcPktRate = 133;
    let handle = connection.opened(HCTX::new(0x00AB_CDEF), negotiated);
    assert_eq!(handle, Ok(HCTX::new(0x00AB_CDEF)));
    assert!(!handle.unwrap().is_null());
    assert_eq!(connection.stage(), Stage::Open);
    assert_eq!(connection.handle(), Some(HCTX::new(0x00AB_CDEF)));
    assert_eq!(connection.context().lcPktRate, 133);

    assert_eq!(connection.closed(1), Ok(()));
    assert_eq!(connection.stage(), Stage::Closed);
    assert_eq!(connection.handle(), None);

    assert_eq!(connection.closed(1), Err(ProtocolError::WrongStage));
    assert_eq!(connection.stage(), Stage::Closed);
}

#[test]
fn closed_connection_takes_nothing() {
    let mut connection = open_connection(WTPKT::all());
    connection.closed(1).unwrap();
    let context = connection.context();
    assert_eq!(connection.populate(172, &driver_default()), Err(ProtocolError::WrongStage));
    assert_eq!(connection.edit(context), Err(ProtocolError::WrongStage));
    assert_eq!(connection.opened(HCTX::new(1), context), Err(ProtocolError::WrongStage));
    assert_eq!(connection.closed(1), Err(ProtocolError::WrongStage));
    assert_eq!(connection.closed(0), Err(ProtocolError::WrongStage));
    let bytes = packet_with_changes(WTPKT::X(), 1).to_bytes();
    assert_eq!(connection.accept_packet(1, &bytes), Err(ProtocolError::WrongStage));
    assert_eq!(connection.accept_packets(1, 1, 1, &bytes), Err(ProtocolError::WrongStage));
    assert_eq!(connection.queue_extent(1, 1, 2), Err(ProtocolError::WrongStage));
    assert_eq!(connection.stage(), Stage::Closed);
    assert_eq!(connection.handle(), None);
}

#[test]
fn open_connection_cannot_be_configured_again() {
    let mut connection = open_connection(WTPKT::all());
    let context = connection.context();
    assert_eq!(connection.populate(172, &driver_default()), Err(ProtocolError::WrongStage));
    assert_eq!(connection.edit(LOGCONTEXT::default()), Err(ProtocolError::WrongStage));
    assert_eq!(connection.opened(HCTX::new(9), context), Err(ProtocolError::WrongStage));
    assert_eq!(connection.stage(), Stage::Open);
    assert_eq!(connection.handle(), Some(HCTX::new(0x4000)));
    assert_eq!(connection.context(), context);
}

#[test]
fn query_answers() {
    assert_eq!(check_query(172, 172, 172), Ok(()));
    assert_eq!(check_query(0, 172, 172), Err(ProtocolError::Failed));
    assert_eq!(check_query(0, 172, 0), Err(ProtocolError::Failed));
    assert_eq!(check_query(171, 172, 172), Err(ProtocolError::SizeMismatch));
    assert_eq!(check_query(172, 172, 171), Err(ProtocolError::SizeMismatch));
    assert_eq!(check_query(16, 16, 16), Ok(()));
    assert_eq!(check_query(16, 172, 16), Err(ProtocolError::SizeMismatch));
}

#[test]
fn populate_checks_the_answer() {
    let mut connection = Connection::new();
    let bytes = driver_default();
    assert_eq!(connection.populate(0, &bytes), Err(ProtocolError::Failed));
    assert_eq!(connection.stage(), Stage::Unconfigured);
    assert_eq!(connection.populate(170, &bytes), Err(ProtocolError::SizeMismatch));
    assert_eq!(connection.populate(172, &bytes[..100]), Err(ProtocolError::SizeMismatch));
    assert_eq!(connection.stage(), Stage::Unconfigured);
    assert_eq!(connection.edit(LOGCONTEXT::default()), Err(ProtocolError::WrongStage));
    assert_eq!(
        connection.opened(HCTX::new(1), LOGCONTEXT::default()),
        Err(ProtocolError::WrongStage)
    );
    assert_eq!(connection.closed(1), Err(ProtocolError::WrongStage));
    assert_eq!(connection.populate(172, &bytes), Ok(()));
    assert_eq!(connection.populate(172, &vec![0u8; 172]), Ok(()));
    assert_eq!(connection.stage(), Stage::Configured);
    assert_eq!(connection.context(), LOGCONTEXT::default());
}

#[test]
fn open_may_fail() {
    let mut connection = Connection::new();
    connection.populate(172, &driver_default()).unwrap();
    let context = connection.context();
    let mut changed = context;
    changed.lcPktRate = 1;
    assert_eq!(connection.opened(HCTX::null(), changed), Err(ProtocolError::Failed));
    assert_eq!(connection.stage(), Stage::Configured);
    assert_eq!(connection.context(), context);
    assert_eq!(connection.handle(), None);
    assert_eq!(connection.opened(HCTX::new(8), changed), Ok(HCTX::new(8)));
    assert_eq!(connection.context(), changed);
}

#[test]
fn close_may_fail() {
    let mut connection = open_connection(WTPKT::all());
    assert_eq!(connection.closed(0), Err(ProtocolError::Failed));
    assert_eq!(connection.stage(), Stage::Open);
    assert_eq!(connection.handle(), Some(HCTX::new(0x4000)));
    assert_eq!(connection.closed(-1), Ok(()));
    assert_eq!(connection.stage(), Stage::Closed);
}

#[test]
fn packet_reports_only_what_was_asked_for() {
    let asked = WTPKT::X().union(WTPKT::Y()).union(WTPKT::NORMAL_PRESSURE());
    let connection = open_connection(asked);

    let good = packet_with_changes(WTPKT::X().union(WTPKT::NORMAL_PRESSURE()), 1);
    let accepted = connection.accept_packet(1, &good.to_bytes());
    assert_eq!(accepted, Ok(good));
    assert!(asked.contains(accepted.unwrap().pkChanged));

    let unchanged = packet_with_changes(WTPKT::empty(), 2);
    assert_eq!(connection.accept_packet(1, &unchanged.to_bytes()), Ok(unchanged));

    let bad = packet_with_changes(WTPKT::X().union(WTPKT::ROTATION()), 3);
    assert_eq!(connection.accept_packet(1, &bad.to_bytes()), Err(ProtocolError::UnrequestedData));
}

#[test]
fn packet_answers() {
    let connection = open_connection(WTPKT::all());
    let packet = packet_with_changes(WTPKT::X(), 5);
    let bytes = packet.to_bytes();
    assert_eq!(connection.accept_packet(0, &bytes), Err(ProtocolError::Failed));
    assert_eq!(
        connection.accept_packet(1, &bytes[..bytes.len() - 1]),
        Err(ProtocolError::SizeMismatch)
    );
    assert_eq!(connection.accept_packet(0, &[]), Err(ProtocolError::Failed));
    assert_eq!(connection.accept_packet(7, &bytes), Ok(packet));
    let unconfigured = Connection::new();
    assert_eq!(unconfigured.accept_packet(1, &bytes), Err(ProtocolError::WrongStage));
}

#[test]
fn full_packets_need_every_item_absolute() {
    assert!(open_connection(WTPKT::all()).asks_for_full_packets());
    assert!(!open_connection(WTPKT::X().union(WTPKT::Y())).asks_for_full_packets());
    let mut connection = Connection::new();
    connection.populate(172, &driver_default()).unwrap();
    let mut context = connection.context();
    context.lcPktMode = WTPKT::BUTTONS();
    connection.edit(context).unwrap();
    assert!(!connection.asks_for_full_packets());
    assert!(!Connection::new().asks_for_full_packets());
}

#[test]
fn range_of_packets() {
    let asked = WTPKT::X().union(WTPKT::Y());
    let connection = open_connection(asked);
    let first = packet_with_changes(WTPKT::X(), 10);
    let second = packet_with_changes(WTPKT::Y(), 11);
    let third = packet_with_changes(WTPKT::empty(), 12);
    let size = Packet::size();
    let mut buffer = vec![0u8; 4 * size];
    buffer[..size].copy_from_slice(&first.to_bytes());
    buffer[size..2 * size].copy_from_slice(&second.to_bytes());
    buffer[2 * size..3 * size].copy_from_slice(&third.to_bytes());

    assert_eq!(connection.accept_packets(3, 3, 4, &buffer), Ok(vec![first, second, third]));
    assert_eq!(connection.accept_packets(9, 2, 4, &buffer), Ok(vec![first, second]));
    assert_eq!(connection.accept_packets(3, 0, 4, &buffer), Ok(vec![]));
    assert_eq!(
        connection.accept_packets(4, 4, 4, &buffer),
        Ok(vec![first, second, third, Packet::default()])
    );
    assert_eq!(connection.accept_packets(0, 3, 4, &buffer), Err(ProtocolError::Failed));
    assert_eq!(connection.accept_packets(-1, 3, 4, &buffer), Err(ProtocolError::Failed));
    assert_eq!(connection.accept_packets(3, 5, 4, &buffer), Err(ProtocolError::SizeMismatch));
    assert_eq!(connection.accept_packets(3, -1, 4, &buffer), Err(ProtocolError::SizeMismatch));
    assert_eq!(connection.accept_packets(3, 3, 3, &buffer), Err(ProtocolError::SizeMismatch));
    assert_eq!(
        connection.accept_packets(3, 3, 4, &buffer[..4 * size - 1]),
        Err(ProtocolError::SizeMismatch)
    );
    assert_eq!(
        connection.accept_packets(3, 3, usize::MAX, &buffer),
        Err(ProtocolError::SizeMismatch)
    );

    let stray = packet_with_changes(WTPKT::Z(), 13);
    buffer[size..2 * size].copy_from_slice(&stray.to_bytes());
    assert_eq!(connection.accept_packets(3, 3, 4, &buffer), Err(ProtocolError::UnrequestedData));
    assert_eq!(connection.accept_packets(3, 1, 4, &buffer), Ok(vec![first]));
}

#[test]
fn queue_extent_answers() {
    let connection = open_connection(WTPKT::all());
    assert_eq!(connection.queue_extent(1, 17, 42), Ok((17, 42)));
    assert_eq!(connection.queue_extent(1, 0xFFFF_FFFF, 3), Ok((0xFFFF_FFFF, 3)));
    assert_eq!(connection.queue_extent(0, 17, 42), Err(ProtocolError::Failed));
    assert_eq!(Connection::new().queue_extent(1, 17, 42), Err(ProtocolError::WrongStage));
}

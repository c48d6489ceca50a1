use waveshare_serial_servo::command::Command;
use waveshare_serial_servo::crc;
use waveshare_serial_servo::hardware::address::{Address, ReadRegion, WriteRegion};
use waveshare_serial_servo::hardware::{DriverError, DriverErrors, Instruction, ID};
use waveshare_serial_servo::response::{Response, ResponseError};

fn commands() -> Vec<Command> {
    vec![
        Command::new(ID::Single(1), Instruction::ping()),
        Command::new(ID::Single(252), Instruction::read(ReadRegion::new(56, 2).unwrap())),
        Command::new(
            ID::Single(0),
            Instruction::write(WriteRegion::new(40, vec![1, 2, 3, 4, 5, 6, 7, 8]).unwrap()),
        ),
        Command::new(ID::Broadcast, Instruction::write(WriteRegion::one(Address::Id, 9))),
    ]
}

#[test]
fn checksum_values() {
    assert_eq!(crc(&[1, 2, 3]), 249);
    assert_eq!(crc(&[]), 255);
    assert_eq!(crc(&[0xff, 0xff]), 1);
    assert_eq!(crc(&[0x01, 0x02, 0x00]), 0xfc);
}

#[test]
fn instruction_payloads() {
    assert_eq!(Instruction::ping().data(), vec![0x01]);
    let read = ReadRegion::new(56, 2).unwrap();
    assert_eq!(Instruction::read(read).data(), vec![0x02, 56, 2]);
    let write = WriteRegion::new(42, vec![0x34, 0x12]).unwrap();
    assert_eq!(Instruction::write(write).data(), vec![0x03, 42, 0x34, 0x12]);
}

#[test]
fn build_ping_frame() {
    let frame = Command::new(ID::Single(1), Instruction::ping()).build();
    assert_eq!(frame, vec![0xff, 0xff, 0x01, 0x02, 0x01, 0xfb]);
}

#[test]
fn build_read_frame() {
    let read = ReadRegion::new(56, 2).unwrap();
    let frame = Command::new(ID::Single(1), Instruction::read(read)).build();
    assert_eq!(frame, vec![0xff, 0xff, 0x01, 0x04, 0x02, 56, 2, 0xbe]);
}

#[test]
fn build_broadcast_write_frame() {
    let write = WriteRegion::one(Address::Lock, 0);
    let frame = Command::new(ID::Broadcast, Instruction::write(write)).build();
    // 0xfe + 4 + 3 + 55 + 0 = 316, 316 mod 256 = 60, !60 = 195
    assert_eq!(frame, vec![0xff, 0xff, 0xfe, 0x04, 0x03, 55, 0, 195]);
}

#[test]
fn parse_accepts_plain_reply() {
    let reply = Response::try_from(&[0xff, 0xff, 0x01, 0x02, 0x00, 0xfc]).unwrap();
    assert_eq!(reply.id, ID::Single(1));
    assert!(reply.errors.is_none());
    assert!(reply.payload.is_empty());
}

#[test]
fn parse_reads_payload() {
    // id 1, length 4, no error, payload [0x10, 0x20]
    let body = [0x01u8, 0x04, 0x00, 0x10, 0x20];
    let mut frame = vec![0xff, 0xff];
    frame.extend_from_slice(&body);
    frame.push(crc(&body));
    let reply = Response::try_from(frame.as_slice()).unwrap();
    assert_eq!(reply.payload, vec![0x10, 0x20]);
    assert_eq!(reply.id, ID::Single(1));
}

#[test]
fn parse_reports_driver_errors() {
    let body = [0x07u8, 0x02, 0x21];
    let mut frame = vec![0xff, 0xff];
    frame.extend_from_slice(&body);
    frame.push(crc(&body));
    let reply = Response::try_from(frame.as_slice()).unwrap();
    let errors = reply.errors.unwrap();
    assert_eq!(errors.bits(), 0x21);
    assert!(errors.contains(DriverError::Voltage));
    assert!(errors.contains(DriverError::OverLoad));
    assert!(!errors.contains(DriverError::Angle));
    assert_eq!(errors.flags(), vec![DriverError::Voltage, DriverError::OverLoad]);
}

#[test]
fn unknown_error_bits_are_not_reported() {
    assert!(DriverErrors::from_byte(0).is_none());
    assert!(DriverErrors::from_byte(16).is_none());
    assert!(DriverErrors::from_byte(64 | 128).is_none());
    let kept = DriverErrors::from_byte(16 | 4).unwrap();
    assert_eq!(kept.bits(), 20);
    assert_eq!(kept.flags(), vec![DriverError::OverHeat]);
    let all = DriverErrors::from_byte(0xff).unwrap();
    assert_eq!(
        all.flags(),
        vec![
            DriverError::Voltage,
            DriverError::Angle,
            DriverError::OverHeat,
            DriverError::OverEle,
            DriverError::OverLoad
        ]
    );
    assert_eq!(DriverError::OverEle.bit(), 8);
}

#[test]
fn parse_rejects_short_buffer() {
    assert_eq!(Response::try_from(&[]).unwrap_err(), ResponseError::Malformed);
    assert_eq!(Response::try_from(&[0xff, 0xff, 0x01, 0x02]).unwrap_err(), ResponseError::Malformed);
}

#[test]
fn parse_rejects_invalid_id() {
    let body = [253u8, 0x02, 0x00];
    let mut frame = vec![0xff, 0xff];
    frame.extend_from_slice(&body);
    frame.push(crc(&body));
    assert_eq!(Response::try_from(frame.as_slice()).unwrap_err(), ResponseError::IdInvalid);
}

#[test]
fn parse_rejects_missing_checksum() {
    // Length says three more bytes follow, only two are there.
    let frame = [0xff, 0xff, 0x01, 0x03, 0x00, 0x00];
    assert_eq!(Response::try_from(&frame).unwrap_err(), ResponseError::Malformed);
}

#[test]
fn parse_rejects_length_below_two() {
    // With length 1 the checksum would sit on the error byte.
    assert_eq!(Response::try_from(&[0xff, 0xff, 0x01, 0x01, 0xfd]).unwrap_err(), ResponseError::Malformed);
    assert_eq!(
        Response::try_from(&[0xff, 0xff, 0x01, 0x00, 0x00, 0x00]).unwrap_err(),
        ResponseError::Malformed
    );
}

#[test]
fn parse_rejects_bad_checksum() {
    let frame = [0xff, 0xff, 0x01, 0x02, 0x00, 0xfd];
    assert_eq!(Response::try_from(&frame).unwrap_err(), ResponseError::CrcInvalid);
}

#[test]
fn built_frames_validate() {
    for command in commands() {
        let id = command.id;
        let frame = command.build();
        let reply = Response::try_from(frame.as_slice()).unwrap();
        assert_eq!(reply.id, id);
        assert_eq!(reply.payload, frame[5..frame.len() - 1].to_vec());
    }
}

#[test]
fn corrupted_payload_byte_fails_checksum() {
    for command in commands() {
        let frame = command.build();
        for i in 4..frame.len() - 1 {
            for delta in [1u8, 0x80, 0xff] {
                let mut bad = frame.clone();
                bad[i] = bad[i].wrapping_add(delta);
                assert_eq!(
                    Response::try_from(bad.as_slice()).unwrap_err(),
                    ResponseError::CrcInvalid
                );
            }
        }
    }
}

#[test]
fn corrupted_id_byte_fails_checksum() {
    let frame = Command::new(ID::Single(3), Instruction::ping()).build();
    for v in (0u8..=252).chain([254]) {
        if v == 3 {
            continue;
        }
        let mut bad = frame.clone();
        bad[2] = v;
        assert_eq!(Response::try_from(bad.as_slice()).unwrap_err(), ResponseError::CrcInvalid);
    }
    let mut bad = frame.clone();
    bad[2] = 253;
    assert_eq!(Response::try_from(bad.as_slice()).unwrap_err(), ResponseError::IdInvalid);
}

#[test]
fn truncated_reply_is_malformed() {
    let body = [0x01u8, 0x04, 0x00, 0x10, 0x20];
    let mut frame = vec![0xff, 0xff];
    frame.extend_from_slice(&body);
    frame.push(crc(&body));
    assert!(Response::try_from(frame.as_slice()).is_ok());
    for n in 0..5 {
        assert_eq!(Response::try_from(&frame[..n]).unwrap_err(), ResponseError::Malformed);
    }
    // Cut after the error byte: the checksum is missing.
    for n in 5..frame.len() {
        assert_eq!(Response::try_from(&frame[..n]).unwrap_err(), ResponseError::Malformed);
    }
}

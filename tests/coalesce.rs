use waveshare_serial_servo::hardware::address::Address;
use waveshare_serial_servo::hardware::Instruction;
use waveshare_serial_servo::servo::{
    split_word, Acceleration, Assign, MoveConfig, Position, PropertyError, Speed,
};

fn payloads(assign: &Assign) -> Vec<Vec<u8>> {
    assign
        .get_instructions()
        .into_iter()
        .map(Instruction::data)
        .collect()
}

#[test]
fn empty_batch_has_no_writes() {
    assert!(Assign::default().get_instructions().is_empty());
}

#[test]
fn adjacent_writes_merge_into_one() {
    let mut order = Assign::default();
    order.set_acceleration(Some(Acceleration::new_raw(10).unwrap()));
    order.set_position(Some(Position::new_raw(0x0234).unwrap()));
    assert_eq!(payloads(&order), vec![vec![0x03, 41, 10, 0x34, 0x02]]);
}

#[test]
fn gap_splits_writes_in_two() {
    let mut order = Assign::default();
    order.set_acceleration(Some(Acceleration::new_raw(10).unwrap()));
    order.set_word(Address::GoalTime, Some(0x0102));
    assert_eq!(
        payloads(&order),
        vec![vec![0x03, 41, 10], vec![0x03, 44, 0x02, 0x01]]
    );
}

#[test]
fn filled_gap_gives_one_write() {
    let mut order = Assign::default();
    order.set_acceleration(Some(Acceleration::new_raw(10).unwrap()));
    order.set_word(Address::GoalTime, Some(0x0102));
    order.set_position(Some(Position::new_raw(0x0fff).unwrap()));
    assert_eq!(
        payloads(&order),
        vec![vec![0x03, 41, 10, 0xff, 0x0f, 0x02, 0x01]]
    );
}

#[test]
fn position_goal_is_one_contiguous_write() {
    let order = Assign::set_position_goal(
        Position::new_raw(2048).unwrap(),
        Speed::new_raw(0x0123).unwrap(),
        Acceleration::new_raw(254).unwrap(),
    );
    assert_eq!(
        payloads(&order),
        vec![vec![0x03, 41, 254, 0x00, 0x08, 0, 0, 0x23, 0x01]]
    );
}

#[test]
fn separate_runs_come_in_ascending_order() {
    let mut order = Assign::default();
    order.set_byte(Address::Lock, Some(1));
    order.set_speed(Some(Speed::new_raw(5).unwrap()));
    order.set_byte(Address::Id, Some(7));
    order.set_byte(Address::BaudRate, Some(4));
    order.set_byte(Address::TorqueEnable, Some(1));
    assert_eq!(
        payloads(&order),
        vec![
            vec![0x03, 5, 7, 4],
            vec![0x03, 40, 1],
            vec![0x03, 46, 5, 0],
            vec![0x03, 55, 1],
        ]
    );
}

#[test]
fn clearing_a_setting_removes_its_bytes() {
    let mut order = Assign::set_position_goal(
        Position::new_raw(1).unwrap(),
        Speed::new_raw(2).unwrap(),
        Acceleration::new_raw(3).unwrap(),
    );
    order.set_position(None);
    order.set_word(Address::GoalTime, None);
    assert_eq!(
        payloads(&order),
        vec![vec![0x03, 41, 3], vec![0x03, 46, 2, 0]]
    );
    let copy = order.clone();
    assert_eq!(payloads(&copy), payloads(&order));
}

#[test]
fn lowest_and_highest_offsets() {
    let mut order = Assign::default();
    order.set_byte(Address::Id, Some(1));
    order.set_byte(Address::Lock, Some(0));
    assert_eq!(payloads(&order), vec![vec![0x03, 5, 1], vec![0x03, 55, 0]]);
}

#[test]
fn raw_settings_are_range_checked() {
    assert_eq!(Speed::new_raw(4095).unwrap().raw(), 4095);
    assert_eq!(Speed::new_raw(4096).unwrap_err(), PropertyError::OutOfRange);
    assert_eq!(Position::new_raw(0).unwrap().raw(), 0);
    assert_eq!(Position::new_raw(0xffff).unwrap_err(), PropertyError::OutOfRange);
    assert_eq!(Acceleration::new_raw(254).unwrap().raw(), 254);
    assert_eq!(Acceleration::new_raw(255).unwrap_err(), PropertyError::OutOfRange);
}

#[test]
fn words_split_low_byte_first() {
    assert_eq!(split_word(Some(0x1234)), (Some(0x34), Some(0x12)));
    assert_eq!(split_word(Some(0xffff)), (Some(0xff), Some(0xff)));
    assert_eq!(split_word(None), (None, None));
}

#[test]
fn move_config_holds_raw_values() {
    let config = MoveConfig { acceleration: 1, position: 2, speed: 3 };
    let copy = config;
    assert_eq!((copy.acceleration, copy.position, copy.speed), (1, 2, 3));
}

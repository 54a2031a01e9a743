use line_detection::motion::JumpLeft;
use line_detection::robot_state::{parse_id, parse_version, RobotConfiguration, TouchSensors};

#[test]
fn id_must_have_twenty_bytes() {
    let good = b"P0000000000000000000".to_vec();
    let parsed = parse_id(&good).expect("twenty bytes are accepted");
    assert_eq!(parsed, good);
    assert!(parse_id(&b"short".to_vec()).is_none());
    assert!(parse_id(&b"longer_than_twenty_bytes".to_vec()).is_none());
}

#[test]
fn version_is_the_leading_digit() {
    assert_eq!(parse_version(&b"6.0.0".to_vec()), Some(6));
    assert_eq!(parse_version(&b"".to_vec()), None);
    assert_eq!(parse_version(&b"v6".to_vec()), None);
}

#[test]
fn configuration_holds_parsed_fields() {
    let config = RobotConfiguration {
        body_id: parse_id(&b"B0000000000000000001".to_vec()).unwrap(),
        body_version: parse_version(&b"6.0.0".to_vec()).unwrap(),
        head_id: parse_id(&b"H0000000000000000002".to_vec()).unwrap(),
        head_version: parse_version(&b"6.0.0".to_vec()).unwrap(),
    };
    assert_eq!(config.body_version, 6);
    assert_eq!(config.head_version, 6);
    assert_eq!(config.body_id.len(), 20);
    assert_eq!(config.head_id.len(), 20);
}

#[test]
fn touch_sensors_default_to_untouched() {
    let sensors = TouchSensors::default();
    assert!(!sensors.chest_button);
    assert!(!sensors.head_front);
    assert!(!sensors.right_hand_back);
}

#[test]
fn jump_left_emits_no_command() {
    let mut stub = JumpLeft::new();
    assert!(stub.cycle().is_none());
}

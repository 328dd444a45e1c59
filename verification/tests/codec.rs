use mvt::Command;
use mvt::CommandInt;
use mvt::Error;
use mvt::ParamInt;

#[test]
fn test_zigzag_values() {
    assert_eq!(ParamInt::new(0).encode(), 0);
    assert_eq!(ParamInt::new(-1).encode(), 1);
    assert_eq!(ParamInt::new(1).encode(), 2);
    assert_eq!(ParamInt::new(-2).encode(), 3);
    assert_eq!(ParamInt::new(2).encode(), 4);
    assert_eq!(ParamInt::new(25).encode(), 50);
    assert_eq!(ParamInt::new(17).encode(), 34);
}

#[test]
fn test_zigzag_round_trip() {
    let deltas = [0i32, -1, 1, -2, 2, 25, -64, 4096, i32::MAX, i32::MIN];
    for &d in deltas.iter() {
        let w = ParamInt::new(d).encode();
        assert_eq!(ParamInt::decode(w).value, d);
    }
}

#[test]
fn test_command_round_trip() {
    let cases = [
        (Command::MoveTo, 0u32),
        (Command::MoveTo, 1),
        (Command::LineTo, 1),
        (Command::LineTo, 120),
        (Command::ClosePath, 1),
        (Command::MoveTo, 0x1FFF_FFFF),
    ];
    for &(id, count) in cases.iter() {
        let w = CommandInt::new(id, count).encode();
        let c = CommandInt::decode(w).unwrap();
        assert_eq!(c, CommandInt::new(id, count));
    }
}

#[test]
fn test_command_words() {
    assert_eq!(CommandInt::new(Command::MoveTo, 1).encode(), 9);
    assert_eq!(CommandInt::new(Command::LineTo, 1).encode(), 10);
    assert_eq!(CommandInt::new(Command::LineTo, 2).encode(), 18);
    assert_eq!(CommandInt::new(Command::ClosePath, 1).encode(), 15);
}

#[test]
fn test_command_decode_invalid() {
    // low three bits 0, 3, 4, 5 and 6 name no path command
    assert_eq!(CommandInt::decode(0), Err(Error::InvalidCommand));
    assert_eq!(CommandInt::decode(3), Err(Error::InvalidCommand));
    assert_eq!(CommandInt::decode(4 | (5 << 3)), Err(Error::InvalidCommand));
    assert_eq!(CommandInt::decode(6), Err(Error::InvalidCommand));
    assert!(CommandInt::decode(9).is_ok());
}

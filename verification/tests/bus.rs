use vibe_hal::bus::BusError;

#[test]
fn bus_errors_carry_their_details() {
    match (BusError::ShortRead { expected: 15, got: 14 }) {
        BusError::ShortRead { expected, got } => assert_eq!((expected, got), (15, 14)),
        _ => unreachable!(),
    }
    match BusError::Transport("timeout".to_string()) {
        BusError::Transport(m) => assert_eq!(m, "timeout"),
        _ => unreachable!(),
    }
    assert!(matches!(BusError::NotPresent, BusError::NotPresent));
}

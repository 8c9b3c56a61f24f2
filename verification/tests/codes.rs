use trustbridge_storage::storage::PauseReason;

#[test]
fn pause_reason_codes() {
    for (code, reason) in [
        (1, PauseReason::Maintenance),
        (2, PauseReason::SecurityIncident),
        (3, PauseReason::RegulatoryHold),
        (4, PauseReason::Unpause),
        (99, PauseReason::Other),
    ] {
        assert!(PauseReason::is_valid(code));
        assert_eq!(PauseReason::from_code(code), Some(reason));
        assert_eq!(reason.code(), code);
    }
}

#[test]
fn unknown_pause_reason_codes_are_refused() {
    for code in [0, 5, 98, 100, u32::MAX] {
        assert!(!PauseReason::is_valid(code));
        assert_eq!(PauseReason::from_code(code), None);
    }
}

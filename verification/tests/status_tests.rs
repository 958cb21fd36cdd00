use vagrant_boxes::status::BoxStatus;

#[test]
fn status_tokens_parse_case_insensitively() {
    assert_eq!(BoxStatus::from_status_token(b"poweroff"), Some(BoxStatus::PowerOff));
    assert_eq!(BoxStatus::from_status_token(b"PowerOff"), Some(BoxStatus::PowerOff));
    assert_eq!(BoxStatus::from_status_token(b"POWEROFF"), Some(BoxStatus::PowerOff));
    assert_eq!(BoxStatus::from_status_token(b"running"), Some(BoxStatus::Running));
    assert_eq!(BoxStatus::from_status_token(b"RUNNING"), Some(BoxStatus::Running));
    assert_eq!(BoxStatus::from_status_token(b"Saved"), Some(BoxStatus::Saved));
    assert_eq!(BoxStatus::from_status_token(b"saved"), Some(BoxStatus::Saved));
    assert_eq!(BoxStatus::from_status_token(b"aborted"), Some(BoxStatus::Aborted));
    assert_eq!(BoxStatus::from_status_token(b"Aborted"), Some(BoxStatus::Aborted));
}

#[test]
fn unknown_status_tokens_are_rejected() {
    assert_eq!(BoxStatus::from_status_token(b""), None);
    assert_eq!(BoxStatus::from_status_token(b"suspended"), None);
    assert_eq!(BoxStatus::from_status_token(b"runnin"), None);
    assert_eq!(BoxStatus::from_status_token(b"runningg"), None);
    assert_eq!(BoxStatus::from_status_token(b"power off"), None);
    assert_eq!(BoxStatus::from_status_token(b"poweroff "), None);
}

#[test]
fn powered_on_only_for_running() {
    assert!(BoxStatus::Running.powered_on());
    assert!(!BoxStatus::PowerOff.powered_on());
    assert!(!BoxStatus::Saved.powered_on());
    assert!(!BoxStatus::Aborted.powered_on());
}

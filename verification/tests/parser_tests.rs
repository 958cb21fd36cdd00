use vagrant_boxes::parser::ParseError;
use vagrant_boxes::parser::parse_status_output;
use vagrant_boxes::status::BoxStatus;
use vagrant_boxes::vagrant::Vagrant;

#[test]
fn listing_with_two_boxes_parses_in_order() {
    let output = b"Current machine states:\n\ndefault   running (virtualbox)\nworker1   poweroff (virtualbox)\n\nThis environment represents multiple VMs.\n";
    let records = parse_status_output(output, b"/vm/a").unwrap();
    assert_eq!(records.len(), 2);
    assert_eq!(records[0].0.name, b"default".to_vec());
    assert_eq!(records[0].0.path, b"/vm/a".to_vec());
    assert_eq!(records[0].1, BoxStatus::Running);
    assert_eq!(records[1].0.name, b"worker1".to_vec());
    assert_eq!(records[1].0.path, b"/vm/a".to_vec());
    assert_eq!(records[1].1, BoxStatus::PowerOff);
}

#[test]
fn carriage_return_line_ends_the_table() {
    let output = b"banner\nbanner\nalpha saved\n\rfooter text\nbeta running\n";
    let records = parse_status_output(output, b"/vm/b").unwrap();
    assert_eq!(records.len(), 1);
    assert_eq!(records[0].0.name, b"alpha".to_vec());
    assert_eq!(records[0].1, BoxStatus::Saved);
}

#[test]
fn banner_only_output_has_no_boxes() {
    let records = parse_status_output(b"banner\nbanner\n", b"/vm/c").unwrap();
    assert_eq!(records.len(), 0);
    let records = parse_status_output(b"one line only", b"/vm/c").unwrap();
    assert_eq!(records.len(), 0);
}

#[test]
fn box_line_with_one_token_is_rejected() {
    let output = b"banner\nbanner\nlonely\n\n";
    match parse_status_output(output, b"/vm/d") {
        Err(ParseError::MissingTokens { line }) => assert_eq!(line, b"lonely".to_vec()),
        other => panic!("expected a missing-tokens error, got {:?}", other.is_ok()),
    }
}

#[test]
fn unknown_status_keyword_is_rejected() {
    let output = b"banner\nbanner\ndefault pending (virtualbox)\n\n";
    match parse_status_output(output, b"/vm/e") {
        Err(ParseError::UnknownStatus { line, token }) => {
            assert_eq!(line, b"default pending (virtualbox)".to_vec());
            assert_eq!(token, b"pending".to_vec());
        },
        other => panic!("expected an unknown-status error, got {:?}", other.is_ok()),
    }
}

#[test]
fn extra_whitespace_between_tokens_is_tolerated() {
    let output = b"banner\nbanner\n  spaced\t ABORTED  extras here\n\n";
    let records = parse_status_output(output, b"/vm/f").unwrap();
    assert_eq!(records.len(), 1);
    assert_eq!(records[0].0.name, b"spaced".to_vec());
    assert_eq!(records[0].1, BoxStatus::Aborted);
}

#[test]
fn get_boxes_reports_records_for_its_directory() {
    let vagrant = Vagrant { path: b"/usr/bin/vagrant".to_vec() };
    let output = b"Current machine states:\n\ndefault saved (libvirt)\n\n";
    let records = vagrant.get_boxes(b"/vm/h", output).unwrap();
    assert_eq!(records.len(), 1);
    assert_eq!(records[0].0.name, b"default".to_vec());
    assert_eq!(records[0].0.path, b"/vm/h".to_vec());
    assert_eq!(records[0].1, BoxStatus::Saved);
}

#[test]
fn table_runs_to_end_of_output_without_terminator() {
    let output = b"banner\nbanner\na running\nb saved";
    let records = parse_status_output(output, b"/vm/g").unwrap();
    assert_eq!(records.len(), 2);
    assert_eq!(records[0].0.name, b"a".to_vec());
    assert_eq!(records[1].0.name, b"b".to_vec());
    assert_eq!(records[1].1, BoxStatus::Saved);
}

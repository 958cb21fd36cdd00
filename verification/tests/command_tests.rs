use vagrant_boxes::command::box_prefix;
use vagrant_boxes::command::build_remote_command;
use vagrant_boxes::command::dir_component;

#[test]
fn default_box_takes_directory_component_as_prefix() {
    assert_eq!(box_prefix(b"default", b"/vm/foo"), b"foo".to_vec());
    assert_eq!(box_prefix(b"default", b"/vm/foo/"), b"foo".to_vec());
    assert_eq!(box_prefix(b"default", b"relative/bar"), b"bar".to_vec());
}

#[test]
fn named_box_keeps_its_name_as_prefix() {
    assert_eq!(box_prefix(b"worker1", b"/vm/foo"), b"worker1".to_vec());
    assert_eq!(box_prefix(b"worker1", b"/somewhere/else"), b"worker1".to_vec());
    assert_eq!(box_prefix(b"Default", b"/vm/foo"), b"Default".to_vec());
}

#[test]
fn directory_component_ignores_trailing_separators() {
    assert_eq!(dir_component(b"/vm/a"), b"a".to_vec());
    assert_eq!(dir_component(b"/vm/a///"), b"a".to_vec());
    assert_eq!(dir_component(b"plain"), b"plain".to_vec());
    assert_eq!(dir_component(b"/"), b"".to_vec());
    assert_eq!(dir_component(b""), b"".to_vec());
}

#[test]
fn remote_command_sets_prefix_and_invokes_topgrade() {
    assert_eq!(build_remote_command(b"a", false), b"env TOPGRADE_PREFIX=a topgrade".to_vec());
}

#[test]
fn remote_command_appends_yes_flag_when_non_interactive() {
    assert_eq!(
        build_remote_command(b"worker1", true),
        b"env TOPGRADE_PREFIX=worker1 topgrade -y".to_vec()
    );
}

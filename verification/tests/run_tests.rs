use vagrant_boxes::guard::BringUp;
use vagrant_boxes::guard::Restore;
use vagrant_boxes::run::Action;
use vagrant_boxes::run::Event;
use vagrant_boxes::run::RunError;
use vagrant_boxes::run::VagrantRun;

#[test]
fn poweroff_box_is_bracketed_by_up_and_halt() {
    let dirs = vec![b"/vm/a".to_vec()];
    let (mut machine, first) = VagrantRun::start(Some(dirs), true, false).unwrap();
    match first {
        Action::RunStatus { directory_index } => assert_eq!(directory_index, 0),
        _ => panic!("expected a status request first"),
    }
    let listing = b"banner\nbanner\ndefault poweroff (virtualbox)\n\n".to_vec();
    match machine.step(Event::Output { text: listing }) {
        Action::RunBringUp { directory_index, box_name, subcommand } => {
            assert_eq!(directory_index, 0);
            assert_eq!(box_name, b"default".to_vec());
            assert_eq!(subcommand, BringUp::Up);
        },
        _ => panic!("expected a bring-up"),
    }
    match machine.step(Event::Succeeded) {
        Action::RunRemote { directory_index, box_name, command } => {
            assert_eq!(directory_index, 0);
            assert_eq!(box_name, b"default".to_vec());
            assert_eq!(command, b"env TOPGRADE_PREFIX=a topgrade".to_vec());
        },
        _ => panic!("expected the remote command"),
    }
    match machine.step(Event::Succeeded) {
        Action::RunRestore { directory_index, box_name, subcommand } => {
            assert_eq!(directory_index, 0);
            assert_eq!(box_name, b"default".to_vec());
            assert_eq!(subcommand, Restore::Halt);
        },
        _ => panic!("expected the restore"),
    }
    match machine.step(Event::Succeeded) {
        Action::Done { result } => assert!(result.is_ok()),
        _ => panic!("expected the run to finish"),
    }
}

#[test]
fn running_box_gets_remote_command_without_guard() {
    let dirs = vec![b"/vm/a".to_vec()];
    let (mut machine, _) = VagrantRun::start(Some(dirs), true, false).unwrap();
    let listing = b"banner\nbanner\ndefault running (virtualbox)\n\n".to_vec();
    match machine.step(Event::Output { text: listing }) {
        Action::RunRemote { directory_index, box_name, command } => {
            assert_eq!(directory_index, 0);
            assert_eq!(box_name, b"default".to_vec());
            assert_eq!(command, b"env TOPGRADE_PREFIX=a topgrade".to_vec());
        },
        _ => panic!("expected the remote command with no bring-up"),
    }
    match machine.step(Event::Succeeded) {
        Action::Done { result } => assert!(result.is_ok()),
        _ => panic!("expected the run to finish with no restore"),
    }
}

#[test]
fn poweroff_box_is_skipped_when_power_on_is_disabled() {
    let dirs = vec![b"/vm/a".to_vec()];
    let (mut machine, _) = VagrantRun::start(Some(dirs), false, false).unwrap();
    let listing = b"banner\nbanner\ndefault poweroff (virtualbox)\n\n".to_vec();
    match machine.step(Event::Output { text: listing }) {
        Action::Done { result } => assert!(result.is_ok()),
        _ => panic!("expected the box to be skipped and the run to finish"),
    }
}

#[test]
fn restore_failure_is_swallowed_and_remote_failure_surfaces() {
    let dirs = vec![b"/vm/a".to_vec()];
    let (mut machine, _) = VagrantRun::start(Some(dirs), true, true).unwrap();
    let listing = b"banner\nbanner\nworker1 saved (virtualbox)\n\n".to_vec();
    match machine.step(Event::Output { text: listing }) {
        Action::RunBringUp { box_name, subcommand, .. } => {
            assert_eq!(box_name, b"worker1".to_vec());
            assert_eq!(subcommand, BringUp::Resume);
        },
        _ => panic!("expected a resume"),
    }
    match machine.step(Event::Succeeded) {
        Action::RunRemote { command, .. } => {
            assert_eq!(command, b"env TOPGRADE_PREFIX=worker1 topgrade -y".to_vec());
        },
        _ => panic!("expected the remote command"),
    }
    // the remote command fails: the restore must still be issued first
    match machine.step(Event::Failed) {
        Action::RunRestore { box_name, subcommand, .. } => {
            assert_eq!(box_name, b"worker1".to_vec());
            assert_eq!(subcommand, Restore::Suspend);
        },
        _ => panic!("expected the restore despite the remote failure"),
    }
    // the restore itself fails too; that is swallowed, and the remote
    // failure is what surfaces
    match machine.step(Event::Failed) {
        Action::Done { result } => match result {
            Err(RunError::RemoteFailed { directory_index, box_name }) => {
                assert_eq!(directory_index, 0);
                assert_eq!(box_name, b"worker1".to_vec());
            },
            _ => panic!("expected the remote failure to surface"),
        },
        _ => panic!("expected the run to finish"),
    }
}

#[test]
fn restore_failure_after_success_does_not_stop_the_run() {
    let dirs = vec![b"/vm/a".to_vec()];
    let (mut machine, _) = VagrantRun::start(Some(dirs), true, false).unwrap();
    let listing = b"banner\nbanner\nfirst aborted\nsecond running\n\n".to_vec();
    match machine.step(Event::Output { text: listing }) {
        Action::RunBringUp { box_name, subcommand, .. } => {
            assert_eq!(box_name, b"first".to_vec());
            assert_eq!(subcommand, BringUp::Up);
        },
        _ => panic!("expected a bring-up for the first box"),
    }
    match machine.step(Event::Succeeded) {
        Action::RunRemote { box_name, .. } => assert_eq!(box_name, b"first".to_vec()),
        _ => panic!("expected the remote command for the first box"),
    }
    match machine.step(Event::Succeeded) {
        Action::RunRestore { box_name, subcommand, .. } => {
            assert_eq!(box_name, b"first".to_vec());
            assert_eq!(subcommand, Restore::Halt);
        },
        _ => panic!("expected the restore for the first box"),
    }
    // the restore fails; the run goes on to the next box regardless
    match machine.step(Event::Failed) {
        Action::RunRemote { box_name, .. } => assert_eq!(box_name, b"second".to_vec()),
        _ => panic!("expected the run to continue with the second box"),
    }
    match machine.step(Event::Succeeded) {
        Action::Done { result } => assert!(result.is_ok()),
        _ => panic!("expected the run to finish"),
    }
}

#[test]
fn missing_directory_list_is_a_configuration_error() {
    match VagrantRun::start(None, true, false) {
        Err(RunError::NoDirectories) => {},
        _ => panic!("expected the configuration error"),
    }
}

#[test]
fn empty_directory_list_finishes_at_once() {
    let (_, first) = VagrantRun::start(Some(Vec::new()), true, false).unwrap();
    match first {
        Action::Done { result } => assert!(result.is_ok()),
        _ => panic!("expected an immediate finish"),
    }
}

#[test]
fn status_failure_aborts_the_run() {
    let dirs = vec![b"/vm/a".to_vec()];
    let (mut machine, _) = VagrantRun::start(Some(dirs), true, false).unwrap();
    match machine.step(Event::Failed) {
        Action::Done { result } => match result {
            Err(RunError::StatusFailed { directory_index }) => assert_eq!(directory_index, 0),
            _ => panic!("expected the status failure"),
        },
        _ => panic!("expected the run to finish"),
    }
}

#[test]
fn unparsable_listing_aborts_the_run() {
    let dirs = vec![b"/vm/a".to_vec()];
    let (mut machine, _) = VagrantRun::start(Some(dirs), true, false).unwrap();
    let listing = b"banner\nbanner\ndefault limbo\n\n".to_vec();
    match machine.step(Event::Output { text: listing }) {
        Action::Done { result } => match result {
            Err(RunError::Parse { directory_index, .. }) => assert_eq!(directory_index, 0),
            _ => panic!("expected the parse failure"),
        },
        _ => panic!("expected the run to finish"),
    }
}

#[test]
fn bring_up_failure_aborts_without_restore() {
    let dirs = vec![b"/vm/a".to_vec()];
    let (mut machine, _) = VagrantRun::start(Some(dirs), true, false).unwrap();
    let listing = b"banner\nbanner\ndefault poweroff\n\n".to_vec();
    match machine.step(Event::Output { text: listing }) {
        Action::RunBringUp { .. } => {},
        _ => panic!("expected a bring-up"),
    }
    match machine.step(Event::Failed) {
        Action::Done { result } => match result {
            Err(RunError::BringUpFailed { directory_index, box_name }) => {
                assert_eq!(directory_index, 0);
                assert_eq!(box_name, b"default".to_vec());
            },
            _ => panic!("expected the bring-up failure"),
        },
        _ => panic!("expected the run to finish with no restore"),
    }
}

#[test]
fn directories_are_processed_in_order() {
    let dirs = vec![b"/vm/a".to_vec(), b"/vm/b".to_vec()];
    let (mut machine, first) = VagrantRun::start(Some(dirs), true, false).unwrap();
    match first {
        Action::RunStatus { directory_index } => assert_eq!(directory_index, 0),
        _ => panic!("expected the first directory's status request"),
    }
    let empty_listing = b"banner\nbanner\n\n".to_vec();
    match machine.step(Event::Output { text: empty_listing }) {
        Action::RunStatus { directory_index } => assert_eq!(directory_index, 1),
        _ => panic!("expected the second directory's status request"),
    }
    let listing = b"banner\nbanner\ndefault running\n\n".to_vec();
    match machine.step(Event::Output { text: listing }) {
        Action::RunRemote { directory_index, command, .. } => {
            assert_eq!(directory_index, 1);
            assert_eq!(command, b"env TOPGRADE_PREFIX=b topgrade".to_vec());
        },
        _ => panic!("expected the remote command in the second directory"),
    }
    match machine.step(Event::Succeeded) {
        Action::Done { result } => assert!(result.is_ok()),
        _ => panic!("expected the run to finish"),
    }
}

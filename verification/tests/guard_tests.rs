use vagrant_boxes::guard::BringUp;
use vagrant_boxes::guard::Restore;
use vagrant_boxes::guard::TemporaryPowerOn;
use vagrant_boxes::parser::VagrantBox;
use vagrant_boxes::status::BoxStatus;
use vagrant_boxes::vagrant::Vagrant;

#[test]
fn poweroff_box_gets_up_then_halt() {
    let (mut guard, bring_up) = TemporaryPowerOn::create(BoxStatus::PowerOff);
    assert_eq!(bring_up, BringUp::Up);
    assert_eq!(guard.release(), Restore::Halt);
}

#[test]
fn aborted_box_gets_up_then_halt() {
    let (mut guard, bring_up) = TemporaryPowerOn::create(BoxStatus::Aborted);
    assert_eq!(bring_up, BringUp::Up);
    assert_eq!(guard.release(), Restore::Halt);
}

#[test]
fn saved_box_gets_resume_then_suspend() {
    let (mut guard, bring_up) = TemporaryPowerOn::create(BoxStatus::Saved);
    assert_eq!(bring_up, BringUp::Resume);
    assert_eq!(guard.release(), Restore::Suspend);
}

#[test]
fn temporary_power_on_matches_guard_creation() {
    let vagrant = Vagrant { path: b"/usr/bin/vagrant".to_vec() };
    let vagrant_box = VagrantBox { name: b"worker1".to_vec(), path: b"/vm/a".to_vec() };
    let (mut guard, bring_up) = vagrant.temporary_power_on(&vagrant_box, BoxStatus::Saved);
    assert_eq!(bring_up, BringUp::Resume);
    assert_eq!(guard.release(), Restore::Suspend);
}

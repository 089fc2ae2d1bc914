use crossdesk::permission::{detail_for, open_settings, status, Access, ProbeRun};
use crossdesk::platform::Os;

const PLATFORMS: [(&str, Os); 3] = [("windows", Os::Windows), ("macos", Os::MacOs), ("linux", Os::Other)];

/// The wording exists to stop the user trusting a grant that is lying, so it
/// has to say so even when the OS claims the permission is fine.
#[test]
fn a_granted_permission_that_did_not_move_is_called_out() {
    for (name, os) in PLATFORMS {
        let text = detail_for(false, Access::Granted, os);
        if name == "macos" {
            assert!(text.contains("different build"), "{text}");
            assert!(text.contains("Accessibility"), "{text}");
        }
        assert!(!text.contains("the pointer moved"), "{text}");
    }
}

/// Movement is the ground truth; a denied claim cannot override it.
#[test]
fn movement_wins_over_whatever_the_os_claims() {
    for (_, os) in PLATFORMS {
        assert!(detail_for(true, Access::Denied, os).contains("the pointer moved"));
    }
}

/// Nothing to grant off macOS, so nothing may nag about it.
#[test]
fn other_platforms_need_no_permission() {
    for (name, os) in PLATFORMS {
        if name != "macos" {
            assert!(status(os, false, false) == Access::NotNeeded);
            assert!(status(os, true, true) == Access::NotNeeded);
        }
    }
}

#[test]
fn either_record_grants_access_on_a_mac() {
    assert_eq!(status(Os::MacOs, true, false), Access::Granted);
    assert_eq!(status(Os::MacOs, false, true), Access::Granted);
    assert_eq!(status(Os::MacOs, false, false), Access::Denied);
}

#[test]
fn wording_for_every_outcome() {
    assert_eq!(
        detail_for(false, Access::Denied, Os::MacOs),
        "macOS has not granted Accessibility to this copy of CrossDesk, so injected input is being dropped."
    );
    assert_eq!(
        detail_for(false, Access::NotNeeded, Os::Other),
        "the pointer did not move, and this platform reported no reason why"
    );
    assert_eq!(
        detail_for(true, Access::NotNeeded, Os::Other),
        "the pointer moved: this machine can replay the host's input"
    );
}

#[test]
fn opening_settings_can_fail() {
    assert_eq!(open_settings(Os::MacOs, Ok(true)), Ok(()));
    assert_eq!(
        open_settings(Os::MacOs, Ok(false)),
        Err("macOS declined to open System Settings".to_string())
    );
    assert_eq!(
        open_settings(Os::MacOs, Err("gone".into())),
        Err("could not open System Settings: gone".to_string())
    );
    assert_eq!(
        open_settings(Os::Windows, Ok(true)),
        Err("there is no input permission to grant on this platform".to_string())
    );
}

#[test]
fn a_pointer_that_moves_is_put_back() {
    let mut run = ProbeRun::begin(Os::Other, Access::NotNeeded, Some((50, 60))).unwrap();
    assert_eq!(run.next(), Some((62, 72)));
    run.observe(Some((62, 72)));
    assert_eq!(run.next(), None);
    let (probe, back) = run.finish();
    assert!(probe.moved);
    assert_eq!(back, Some((50, 60)));
}

#[test]
fn a_wedged_pointer_gets_a_second_nudge() {
    let mut run = ProbeRun::begin(Os::MacOs, Access::Granted, Some((50, 60))).unwrap();
    assert_eq!(run.next(), Some((62, 72)));
    run.observe(Some((50, 60)));
    assert_eq!(run.next(), Some((38, 48)));
    run.observe(Some((50, 60)));
    assert_eq!(run.next(), None);
    let (probe, back) = run.finish();
    assert!(!probe.moved && back.is_none());
    assert!(probe.detail.contains("different build"));
}

#[test]
fn a_pointer_that_cannot_be_read_settles_nothing() {
    let silent = ProbeRun::begin(Os::Other, Access::NotNeeded, None).unwrap_err();
    assert!(!silent.moved);
    assert_eq!(
        silent.detail,
        "could not read the pointer position, so movement cannot be verified"
    );
    let denied = ProbeRun::begin(Os::MacOs, Access::Denied, None).unwrap_err();
    assert_eq!(denied.detail, detail_for(false, Access::Denied, Os::MacOs));
    let mut run = ProbeRun::begin(Os::Other, Access::NotNeeded, Some((1, 1))).unwrap();
    run.observe(None);
    assert_eq!(run.next(), None);
    assert!(!run.finish().0.moved);
}

#[test]
fn a_nudge_off_the_end_of_the_coordinates_is_told_apart() {
    let mut run = ProbeRun::begin(Os::Other, Access::NotNeeded, Some((50, 60))).unwrap();
    assert!(run.may_nudge());
    run.observe(None);
    run.at = (i32::MAX, 0);
    assert!(run.may_nudge());
    let run = ProbeRun::begin(Os::Other, Access::NotNeeded, Some((0, i32::MAX))).unwrap();
    assert!(!run.may_nudge());
    let mut run = ProbeRun::begin(Os::Other, Access::NotNeeded, Some((i32::MIN, 0))).unwrap();
    assert!(run.may_nudge());
    run.observe(Some((i32::MIN, 0)));
    assert!(!run.may_nudge());
}

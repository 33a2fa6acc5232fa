use westonite::screenshooter::{
    bindir_path, capture_authorized, client_create_failed_line, launch_failed_line, launch_line,
    record_press, shot_press, socketpair_failed_line, RecordAction, ShotAction, KEY_R, KEY_S,
};

#[test]
fn screenshooter_path_prefers_the_environment() {
    assert_eq!(
        bindir_path(Some("/opt/weston/weston-screenshooter"), "weston-screenshooter").as_deref(),
        Some("/opt/weston/weston-screenshooter")
    );
    assert_eq!(
        bindir_path(None, "weston-screenshooter").as_deref(),
        Some("/usr/bin/weston-screenshooter")
    );
    assert_eq!(
        bindir_path(Some(""), "weston-screenshooter").as_deref(),
        Some("/usr/bin/weston-screenshooter")
    );
    assert_eq!(bindir_path(None, "/abs/client").as_deref(), Some("/abs/client"));
    assert_eq!(bindir_path(Some("/x"), "bad\0name"), None);
}

#[test]
fn screenshot_key_launches_once() {
    assert_eq!(shot_press(true, Some("/usr/bin/a".to_string())), ShotAction::AlreadyRunning);
    assert_eq!(
        shot_press(false, None),
        ShotAction::NoPath("Could not construct screenshooter path.".to_string())
    );
    assert_eq!(
        shot_press(false, Some("/usr/bin/a".to_string())),
        ShotAction::Launch("/usr/bin/a".to_string())
    );
    assert_eq!(launch_line("/usr/bin/a"), "launching '/usr/bin/a'");
    assert_eq!(
        socketpair_failed_line("/usr/bin/a"),
        "wet_client_start: socketpair failed while launching '/usr/bin/a'"
    );
    assert_eq!(
        client_create_failed_line("/usr/bin/a"),
        "wet_client_start: wl_client_create failed while launching '/usr/bin/a'."
    );
    assert_eq!(
        launch_failed_line("/usr/bin/a", "No such file or directory (os error 2)"),
        "Error: Couldn't launch client '/usr/bin/a': No such file or directory (os error 2)"
    );
    assert_eq!((KEY_S, KEY_R), (31, 19));
}

#[test]
fn record_key_toggles_and_picks_an_output() {
    assert_eq!(record_press(true, Some(3), Some(1)), RecordAction::Stop);
    assert_eq!(record_press(false, Some(3), Some(1)), RecordAction::Start(3));
    assert_eq!(record_press(false, None, Some(1)), RecordAction::Start(1));
    assert_eq!(record_press(false, None, None), RecordAction::NoOutput);
}

#[test]
fn only_our_client_may_capture() {
    assert!(capture_authorized(Some(7), Some(7)));
    assert!(!capture_authorized(Some(7), Some(8)));
    assert!(!capture_authorized(Some(7), None));
    assert!(!capture_authorized(None, Some(7)));
    assert!(!capture_authorized(None, None));
}

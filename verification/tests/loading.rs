use shinbun::loading::{show_notice, spinner_frame_at, LoadingState};

#[test]
fn notice_shows_while_loading_and_three_seconds_after() {
    assert!(show_notice(true, None));
    assert!(show_notice(true, Some(100)));
    assert!(show_notice(false, Some(0)));
    assert!(show_notice(false, Some(2)));
    assert!(!show_notice(false, Some(3)));
    assert!(!show_notice(false, None));
}

#[test]
fn spinner_turns_every_eighty_milliseconds() {
    assert_eq!(spinner_frame_at(false, 0), "");
    assert_eq!(spinner_frame_at(false, 12345), "");
    assert_eq!(spinner_frame_at(true, 0), "⠋");
    assert_eq!(spinner_frame_at(true, 79), "⠋");
    assert_eq!(spinner_frame_at(true, 80), "⠙");
    assert_eq!(spinner_frame_at(true, 9 * 80), "⠏");
    assert_eq!(spinner_frame_at(true, 10 * 80), "⠋");
    assert_eq!(spinner_frame_at(true, u128::MAX), "⠸");
}

#[test]
fn loading_state_starts_and_stops() {
    let mut state = LoadingState::new();
    assert!(state.is_loading);
    assert!(state.finish_time.is_none());
    assert!(state.should_show_popup());
    assert!(!state.spinner_frame().is_empty());
    assert!(state.elapsed_secs() < 5);
    state.stop();
    assert!(!state.is_loading);
    assert!(state.finish_time.is_some());
    assert!(state.should_show_popup());
    assert_eq!(state.spinner_frame(), "");
    state.start();
    assert!(state.is_loading);
    assert!(state.finish_time.is_none());
}

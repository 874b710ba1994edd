use billing_extract::error::NavigationError;
use billing_extract::navigator::{
    act, act_with_retry, action_outcome, await_busy_cleared, await_ready, is_busy_cleared, windows_from,
    ActOutcome, Action, NavigationState, PollDecision, RetryDecision, Screen,
};

#[test]
fn run_without_older_windows_visits_each_screen_once() {
    let mut state = NavigationState::new();
    let mut seen = vec![state.screen];
    while state.advance() {
        seen.push(state.screen);
    }
    assert_eq!(
        seen,
        vec![
            Screen::Start,
            Screen::MenuOpened,
            Screen::LoginFormOpened,
            Screen::CredentialsEntered,
            Screen::Authenticated,
            Screen::BillingScreenOpened,
            Screen::DetailScreenOpened,
            Screen::RangeSelected,
            Screen::Done,
        ]
    );
}

#[test]
fn each_older_window_returns_to_the_picker_once() {
    let mut state = NavigationState::new();
    while state.screen != Screen::RangeSelected {
        assert!(state.advance());
    }
    assert!(state.plan_windows(2));
    let mut seen = Vec::new();
    while state.advance() {
        seen.push((state.screen, state.windows_left));
    }
    assert_eq!(
        seen,
        vec![
            (Screen::Picker, 2),
            (Screen::RangeSelected, 1),
            (Screen::Picker, 1),
            (Screen::RangeSelected, 0),
            (Screen::Done, 0),
        ]
    );
    assert!(!state.advance());
    assert_eq!(state.screen, Screen::Done);
}

#[test]
fn busy_page_holds_the_run() {
    let mut state = NavigationState::new();
    state.observe_busy(true);
    assert!(!state.advance());
    assert_eq!(state.screen, Screen::Start);
    assert!(state.busy);
    state.observe_busy(false);
    assert!(state.advance());
    assert_eq!(state.screen, Screen::MenuOpened);
    assert!(!state.busy);
}

#[test]
fn windows_are_planned_only_on_a_selected_range() {
    let mut state = NavigationState::new();
    assert!(!state.plan_windows(3));
    assert_eq!(state, NavigationState::new());
    state.screen = Screen::RangeSelected;
    assert!(state.plan_windows(3));
    assert_eq!(state.windows_left, 3);
}

#[test]
fn windows_run_from_the_pivot_option_to_the_last() {
    assert_eq!(windows_from(1, 4), 3);
    assert_eq!(windows_from(0, 4), 4);
    assert_eq!(windows_from(4, 4), 0);
    assert_eq!(windows_from(5, 4), 0);
    assert_eq!(windows_from(0, 0), 0);
}

#[test]
fn wait_that_times_out_is_fatal() {
    assert!(await_ready("#notice", true).is_ok());
    match await_ready("#notice", false) {
        Err(NavigationError::NavigationTimeout { locator }) => assert_eq!(locator, "#notice"),
        other => panic!("{:?}", other),
    }
}

#[test]
fn missing_action_target_is_skipped() {
    assert!(matches!(act(true, Action::Click), ActOutcome::Perform(Action::Click)));
    match act(true, Action::EnterText("secret".to_string())) {
        ActOutcome::Perform(Action::EnterText(text)) => assert_eq!(text, "secret"),
        other => panic!("{:?}", other),
    }
    assert!(matches!(act(false, Action::Click), ActOutcome::Skipped));
    assert!(matches!(act(false, Action::EnterText("x".to_string())), ActOutcome::Skipped));
}

#[test]
fn retry_backs_off_one_second_until_exhausted() {
    assert!(matches!(act_with_retry("#go", 1, 3, true), RetryDecision::Succeeded));
    assert!(matches!(act_with_retry("#go", 3, 3, true), RetryDecision::Succeeded));
    assert!(matches!(
        act_with_retry("#go", 1, 3, false),
        RetryDecision::RetryAfter { millis: 1000 }
    ));
    assert!(matches!(
        act_with_retry("#go", 2, 3, false),
        RetryDecision::RetryAfter { millis: 1000 }
    ));
    match act_with_retry("#go", 3, 3, false) {
        RetryDecision::GiveUp(NavigationError::RetryExhausted { locator, attempts }) => {
            assert_eq!(locator, "#go");
            assert_eq!(attempts, 3);
        }
        other => panic!("{:?}", other),
    }
    assert!(matches!(act_with_retry("#go", 1, 0, false), RetryDecision::GiveUp(_)));
}

#[test]
fn look_that_ends_after_the_timeout_never_succeeds() {
    for elapsed in [10_001, 20_000, u64::MAX] {
        match await_busy_cleared("#layer", true, elapsed, 10_000) {
            PollDecision::TimedOut(NavigationError::NavigationTimeout { locator }) => {
                assert_eq!(locator, "#layer")
            }
            other => panic!("{:?}", other),
        }
        assert!(matches!(
            await_busy_cleared("#layer", false, elapsed, 10_000),
            PollDecision::TimedOut(_)
        ));
    }
    assert!(matches!(await_busy_cleared("#layer", true, 1, 0), PollDecision::TimedOut(_)));
    assert!(matches!(await_busy_cleared("#layer", true, 0, 0), PollDecision::Cleared));
    assert!(matches!(await_busy_cleared("#layer", false, 0, 0), PollDecision::TimedOut(_)));
}

#[test]
fn failed_text_entry_does_not_fail_the_step() {
    let typing = Action::EnterText("secret".to_string());
    assert!(action_outcome(&typing, true));
    assert!(action_outcome(&typing, false));
    assert!(action_outcome(&Action::Click, true));
    assert!(!action_outcome(&Action::Click, false));
}

#[test]
fn busy_layer_is_cleared_by_display_none() {
    assert!(is_busy_cleared(Some("display: none")));
    assert!(is_busy_cleared(Some("z-index: 9; display: none;")));
    assert!(!is_busy_cleared(Some("display: block")));
    assert!(!is_busy_cleared(Some("display:none")));
    assert!(!is_busy_cleared(Some("")));
    assert!(!is_busy_cleared(None));
}

#[test]
fn busy_poll_looks_again_every_second_until_the_timeout() {
    assert!(matches!(await_busy_cleared("#layer", true, 0, 10_000), PollDecision::Cleared));
    assert!(matches!(await_busy_cleared("#layer", true, 10_000, 10_000), PollDecision::Cleared));
    assert!(matches!(
        await_busy_cleared("#layer", false, 0, 10_000),
        PollDecision::LookAgainAfter { millis: 1000 }
    ));
    assert!(matches!(
        await_busy_cleared("#layer", false, 9_000, 10_000),
        PollDecision::LookAgainAfter { millis: 1000 }
    ));
    assert!(matches!(
        await_busy_cleared("#layer", false, 9_600, 10_000),
        PollDecision::LookAgainAfter { millis: 400 }
    ));
    match await_busy_cleared("#layer", false, 10_000, 10_000) {
        PollDecision::TimedOut(NavigationError::NavigationTimeout { locator }) => {
            assert_eq!(locator, "#layer")
        }
        other => panic!("{:?}", other),
    }
    assert!(matches!(
        await_busy_cleared("#layer", false, 10_001, 10_000),
        PollDecision::TimedOut(_)
    ));
}

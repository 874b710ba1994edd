//! The decisions of the session that walks the site: which screen comes next,
//! and what follows from what the browser reported.

use vstd::prelude::*;
use vstd::string::*;
use crate::error::NavigationError;
use crate::text::contains_text;
use crate::text::has_text;

verus! {

/// The screens of a run, in the order in which they are reached.
#[derive(Clone, Copy, Debug, PartialEq, Eq, Structural)]
pub enum Screen {
    Start,
    MenuOpened,
    LoginFormOpened,
    CredentialsEntered,
    Authenticated,
    BillingScreenOpened,
    DetailScreenOpened,
    /// A range is selected and its rows are shown.
    RangeSelected,
    /// Back at the range picker, before an older window is selected.
    Picker,
    Done,
}

/// Where a run stands.
#[derive(Clone, Copy, Debug, PartialEq, Eq, Structural)]
pub struct NavigationState {
    /// The screen that is shown.
    pub screen: Screen,
    /// Whether the page last reported that it is loading.
    pub busy: bool,
    /// How many older windows are still to be fetched.
    pub windows_left: usize,
}

/// What to do with an element.
#[derive(Clone, Debug)]
pub enum Action {
    Click,
    EnterText(String),
}

/// How an action on an element ended.
#[derive(Clone, Debug)]
pub enum ActOutcome {
    /// The element was there, and this is what to do with it.
    Perform(Action),
    /// The element was missing: nothing is done, and the run goes on.
    Skipped,
}

/// What follows an attempt that may be repeated.
#[derive(Clone, Debug)]
pub enum RetryDecision {
    /// The attempt succeeded.
    Succeeded,
    /// Wait for so many milliseconds, then try again.
    RetryAfter { millis: u64 },
    /// The last permitted attempt failed.
    GiveUp(NavigationError),
}

/// What follows one look at the page's busy signal.
#[derive(Clone, Debug)]
pub enum PollDecision {
    /// The page is idle.
    Cleared,
    /// Still busy: look again after so many milliseconds.
    LookAgainAfter { millis: u64 },
    /// Still busy when the time was up.
    TimedOut(NavigationError),
}

/// The pause between two attempts and between two looks, in milliseconds.
pub open spec fn backoff_millis() -> u64 {
    1000
}

/// The style fragment by which the page's busy layer reports that it is idle.
pub open spec fn idle_marker() -> Seq<char> {
    "display: none"@
}

/// The screen that follows `screen` where `windows_left` older windows are
/// still to be fetched.
pub open spec fn next_screen(screen: Screen, windows_left: usize) -> Screen {
    match screen {
        Screen::Start => Screen::MenuOpened,
        Screen::MenuOpened => Screen::LoginFormOpened,
        Screen::LoginFormOpened => Screen::CredentialsEntered,
        Screen::CredentialsEntered => Screen::Authenticated,
        Screen::Authenticated => Screen::BillingScreenOpened,
        Screen::BillingScreenOpened => Screen::DetailScreenOpened,
        Screen::DetailScreenOpened => Screen::RangeSelected,
        Screen::RangeSelected => if windows_left > 0 {
            Screen::Picker
        } else {
            Screen::Done
        },
        Screen::Picker => Screen::RangeSelected,
        Screen::Done => Screen::Done,
    }
}

/// How many transitions lie between `screen` and the end of a run that
/// fetches no older window.
pub open spec fn distance_to_done(screen: Screen) -> nat {
    match screen {
        Screen::Start => 8,
        Screen::MenuOpened => 7,
        Screen::LoginFormOpened => 6,
        Screen::CredentialsEntered => 5,
        Screen::Authenticated => 4,
        Screen::BillingScreenOpened => 3,
        Screen::DetailScreenOpened => 2,
        Screen::RangeSelected => 1,
        Screen::Picker => 0,
        Screen::Done => 0,
    }
}

impl NavigationState {
    /// Whether the state can occur in a run: the picker is only shown while an
    /// older window is still to be fetched.
    pub open spec fn wf(self) -> bool {
        self.screen == Screen::Picker ==> self.windows_left > 0
    }

    /// Whether the run may move on: it has not ended and the page is idle.
    pub open spec fn can_advance(self) -> bool {
        self.screen != Screen::Done && !self.busy
    }

    /// The state after one transition. Leaving the picker selects an older
    /// window, which is then no longer to be fetched.
    pub open spec fn successor(self) -> NavigationState {
        NavigationState {
            screen: next_screen(self.screen, self.windows_left),
            busy: false,
            windows_left: if self.screen == Screen::Picker && self.windows_left > 0 {
                (self.windows_left - 1) as usize
            } else {
                self.windows_left
            },
        }
    }

    /// How many transitions the run still has to make.
    pub open spec fn steps_left(self) -> nat {
        if self.screen == Screen::Done {
            0
        } else {
            distance_to_done(self.screen) + 2 * self.windows_left as nat
        }
    }

    /// The state in which every run begins.
    pub fn new() -> (s: NavigationState)
        ensures
            s == (NavigationState { screen: Screen::Start, busy: false, windows_left: 0 }),
            s.wf(),
    {
        NavigationState { screen: Screen::Start, busy: false, windows_left: 0 }
    }

    /// Records what the page last reported of its busy signal.
    pub fn observe_busy(&mut self, busy: bool)
        ensures
            *final(self) == (NavigationState { busy, ..*old(self) }),
    {
        self.busy = busy;
    }

    /// Sets how many older windows are to be fetched, once the first window
    /// has been read. Anywhere but on the screen of a selected range the
    /// state stays as it is.
    pub fn plan_windows(&mut self, count: usize) -> (planned: bool)
        ensures
            planned == (old(self).screen == Screen::RangeSelected),
            planned ==> *final(self) == (NavigationState { windows_left: count, ..*old(self) }),
            !planned ==> *final(self) == *old(self),
            old(self).wf() ==> final(self).wf(),
    {
        if self.screen == Screen::RangeSelected {
            self.windows_left = count;
            true
        } else {
            false
        }
    }

    /// Makes one transition, unless the run has ended or the page is busy:
    /// then the state stays as it is.
    pub fn advance(&mut self) -> (moved: bool)
        ensures
            moved == old(self).can_advance(),
            moved ==> *final(self) == old(self).successor(),
            !moved ==> *final(self) == *old(self),
            old(self).wf() ==> final(self).wf(),
            old(self).wf() && moved ==> final(self).steps_left() + 1 == old(self).steps_left(),
    {
        if self.busy {
            return false;
        }
        let next = match self.screen {
            Screen::Start => Screen::MenuOpened,
            Screen::MenuOpened => Screen::LoginFormOpened,
            Screen::LoginFormOpened => Screen::CredentialsEntered,
            Screen::CredentialsEntered => Screen::Authenticated,
            Screen::Authenticated => Screen::BillingScreenOpened,
            Screen::BillingScreenOpened => Screen::DetailScreenOpened,
            Screen::DetailScreenOpened => Screen::RangeSelected,
            Screen::RangeSelected => if self.windows_left > 0 {
                Screen::Picker
            } else {
                Screen::Done
            },
            Screen::Picker => {
                if self.windows_left > 0 {
                    self.windows_left = self.windows_left - 1;
                }
                Screen::RangeSelected
            },
            Screen::Done => {
                return false;
            },
        };
        self.screen = next;
        true
    }
}

/// Every transition brings the run one step nearer to its end, so a run that
/// keeps moving ends.
pub proof fn lemma_successor_is_nearer(state: NavigationState)
    requires
        state.wf(),
        state.screen != Screen::Done,
    ensures
        state.successor().wf(),
        state.successor().steps_left() + 1 == state.steps_left(),
{
}

/// The only transition that does not lead to a later screen is the return to
/// the range picker's selection.
pub proof fn lemma_forward_but_for_picker(state: NavigationState)
    requires
        state.wf(),
        state.screen != Screen::Done,
        state.screen != Screen::Picker,
    ensures
        distance_to_done(state.successor().screen) < distance_to_done(state.screen),
{
}

/// How many older windows a picker still holds from the option at
/// `option_index` on.
pub open spec fn spec_windows_from(option_index: usize, option_count: usize) -> usize {
    if option_index <= option_count {
        (option_count - option_index) as usize
    } else {
        0
    }
}

/// How many older windows are to be fetched where the picker lists
/// `option_count` options and the fetch starts at `option_index`: that option
/// and every one after it.
pub fn windows_from(option_index: usize, option_count: usize) -> (n: usize)
    ensures
        n == spec_windows_from(option_index, option_count),
{
    if option_index <= option_count {
        option_count - option_index
    } else {
        0
    }
}

/// What follows the wait for an element: the run goes on where the element
/// appeared, and is aborted with the locator where the wait timed out.
pub fn await_ready(locator: &str, appeared: bool) -> (r: Result<(), NavigationError>)
    ensures
        appeared ==> r is Ok,
        !appeared ==> (r matches Err(NavigationError::NavigationTimeout { locator: l }) && l@
            == locator@),
{
    if appeared {
        Ok(())
    } else {
        Err(NavigationError::NavigationTimeout { locator: String::from_str(locator) })
    }
}

/// What follows the search for the target of an action: the action where the
/// element was found; nothing, and no failure, where it was missing.
pub fn act(found: bool, action: Action) -> (r: ActOutcome)
    ensures
        found ==> r == ActOutcome::Perform(action),
        !found ==> r is Skipped,
{
    if found {
        ActOutcome::Perform(action)
    } else {
        ActOutcome::Skipped
    }
}

/// Whether the step goes on once the driver was asked to perform `action`.
/// A click that failed fails the step. Text that could not be entered is
/// passed over: the step goes on as if it had been typed.
pub fn action_outcome(action: &Action, performed: bool) -> (step_ok: bool)
    ensures
        step_ok == (performed || action is EnterText),
{
    if performed {
        true
    } else {
        match action {
            Action::EnterText(_) => true,
            Action::Click => false,
        }
    }
}

/// What follows the attempt number `attempt` (the first is 1) of an action
/// that may be tried `max_attempts` times.
pub fn act_with_retry(locator: &str, attempt: u32, max_attempts: u32, succeeded: bool) -> (r:
    RetryDecision)
    ensures
        succeeded ==> r is Succeeded,
        !succeeded && attempt < max_attempts ==> r == (RetryDecision::RetryAfter {
            millis: backoff_millis(),
        }),
        !succeeded && attempt >= max_attempts ==> (r matches RetryDecision::GiveUp(
            NavigationError::RetryExhausted { locator: l, attempts },
        ) && l@ == locator@ && attempts == attempt),
{
    if succeeded {
        RetryDecision::Succeeded
    } else if attempt < max_attempts {
        RetryDecision::RetryAfter { millis: 1000 }
    } else {
        RetryDecision::GiveUp(
            NavigationError::RetryExhausted {
                locator: String::from_str(locator),
                attempts: attempt,
            },
        )
    }
}

/// Whether a style attribute reports the busy layer as hidden. A missing
/// attribute reports nothing.
pub open spec fn spec_busy_cleared(style: Option<Seq<char>>) -> bool {
    style is Some && contains_text(style->0, idle_marker())
}

/// Whether the busy layer's style attribute, if it has one, reports it hidden.
pub fn is_busy_cleared(style: Option<&str>) -> (r: bool)
    ensures
        r == spec_busy_cleared(
            match style {
                Some(s) => Some(s@),
                None => None,
            },
        ),
{
    match style {
        Some(s) => has_text(s, "display: none"),
        None => false,
    }
}

/// What follows one look at the busy signal that ended `elapsed_millis` after
/// the wait began. A look that ends after `timeout_millis` counts for nothing:
/// the wait is aborted with the locator, whatever the look found. Within the
/// time, the wait is over where the signal is cleared; otherwise the page is
/// looked at again after the pause, cut short where less time is left, and the
/// wait is aborted once the time is used up.
pub fn await_busy_cleared(
    busy_locator: &str,
    cleared: bool,
    elapsed_millis: u64,
    timeout_millis: u64,
) -> (r: PollDecision)
    ensures
        elapsed_millis > timeout_millis ==> (r matches PollDecision::TimedOut(
            NavigationError::NavigationTimeout { locator: l },
        ) && l@ == busy_locator@),
        cleared && elapsed_millis <= timeout_millis ==> r is Cleared,
        !cleared && elapsed_millis >= timeout_millis ==> (r matches PollDecision::TimedOut(
            NavigationError::NavigationTimeout { locator: l },
        ) && l@ == busy_locator@),
        !cleared && elapsed_millis < timeout_millis ==> r == (PollDecision::LookAgainAfter {
            millis: if timeout_millis - elapsed_millis < backoff_millis() {
                (timeout_millis - elapsed_millis) as u64
            } else {
                backoff_millis()
            },
        }),
{
    if elapsed_millis > timeout_millis || (!cleared && elapsed_millis == timeout_millis) {
        PollDecision::TimedOut(
            NavigationError::NavigationTimeout { locator: String::from_str(busy_locator) },
        )
    } else if cleared {
        PollDecision::Cleared
    } else {
        let left: u64 = timeout_millis - elapsed_millis;
        PollDecision::LookAgainAfter {
            millis: if left < 1000 {
                left
            } else {
                1000
            },
        }
    }
}

} // verus!

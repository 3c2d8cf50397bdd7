//! The walk through a plan: sleep, alert, and in the end lock, with the
//! decisions in between.
//!
//! The walk goes from step to step. Whoever drives it performs a step and
//! reports how it went, and gets the next step back.

use crate::config::Config;
use crate::plan::{humanize, plan, Plan};
use crate::time::Duration;
use crate::ui::UiError;
use vstd::prelude::*;

verus! {

/// Exit code for a command line that is not accepted.
pub const EXIT_USAGE: i32 = 2;

/// Exit code for an alert or a lock that failed.
pub const EXIT_RUNTIME: i32 = 1;

/// Exit code for a cancelled run where it is not known which signal it was.
pub const EXIT_SIGTERM: i32 = 143;

/// What to do next.
#[derive(Debug)]
pub enum Step {
    /// Sleep for the wait with this index.
    Sleep(usize),
    /// Show the alert with this index.
    Alert(usize),
    /// Lock the screen.
    Lock,
    /// Stop, with this result.
    Done(Result<(), String>),
}

/// A step, its error as text.
pub enum StepView {
    Sleep(nat),
    Alert(nat),
    Lock,
    Done(Result<(), Seq<char>>),
}

impl View for Step {
    type V = StepView;

    open spec fn view(&self) -> StepView {
        match self {
            Step::Sleep(idx) => StepView::Sleep(*idx as nat),
            Step::Alert(idx) => StepView::Alert(*idx as nat),
            Step::Lock => StepView::Lock,
            Step::Done(result) => StepView::Done(
                match result {
                    Ok(()) => Ok(()),
                    Err(reason) => Err(reason@),
                },
            ),
        }
    }
}

/// The first step through a plan of `count` waits. There is nothing to do
/// for a plan without waits.
pub open spec fn first_step(count: nat) -> StepView {
    if count == 0 {
        StepView::Done(Ok(()))
    } else {
        StepView::Sleep(0)
    }
}

/// The step after the sleep with index `idx`.
pub open spec fn step_after_sleep(idx: nat, cancelled: bool) -> StepView {
    if cancelled {
        StepView::Done(Ok(()))
    } else {
        StepView::Alert(idx)
    }
}

/// The step after the alert with index `idx` of `count`, which was shown or
/// failed with the given error.
pub open spec fn step_after_alert(
    count: nat,
    idx: nat,
    shown: Result<(), UiError>,
    cancelled: bool,
) -> StepView {
    match shown {
        Err(e) => StepView::Done(Err("alert failed: "@ + e.text())),
        Ok(()) => if cancelled {
            StepView::Done(Ok(()))
        } else if idx + 1 == count {
            StepView::Lock
        } else {
            StepView::Sleep(idx + 1)
        },
    }
}

/// The text below the message of the alert with index `idx`.
pub open spec fn subtitle_text(waits: Seq<Duration>, idx: int) -> Seq<char> {
    if idx + 1 == waits.len() {
        "locking screen"@
    } else {
        "next nudge in "@ + crate::plan::humanized(waits[idx + 1].secs())
    }
}

/// One alert to show.
#[derive(Debug)]
pub struct AlertRequest {
    /// Whether to beep first.
    pub beep: bool,
    /// The primary text.
    pub message: String,
    /// The text below it.
    pub subtitle: String,
    /// How long it stays visible.
    pub duration: Duration,
}

/// A run of the timer: its configuration and the plan that it walks.
#[derive(Debug)]
pub struct Timer {
    pub config: Config,
    pub plan: Plan,
}

impl Timer {
    /// Plan a run.
    pub fn new<F: Fn(Duration) -> Duration>(config: Config, decay: F) -> (timer: Timer)
        requires
            forall|d: Duration| #[trigger] call_requires(decay, (d,)),
            crate::plan::reaches_floor(decay, config.runway, config.floor),
        ensures
            timer.config == config,
            crate::plan::is_schedule(
                timer.plan@,
                config.initial,
                config.runway,
                decay,
                config.floor,
            ),
    {
        let plan = plan(config.initial, config.runway, decay, config.floor);
        Timer { config, plan }
    }

    /// The first step.
    pub fn start(&self) -> (step: Step)
        ensures
            step@ == first_step(self.plan@.len()),
    {
        if self.plan.waits.len() == 0 {
            Step::Done(Ok(()))
        } else {
            Step::Sleep(0)
        }
    }

    /// How long to sleep before the alert with index `idx`.
    pub fn wait(&self, idx: usize) -> (wait: Duration)
        requires
            idx < self.plan@.len(),
        ensures
            wait == self.plan@[idx as int],
    {
        self.plan.waits[idx]
    }

    /// The text below the message of the alert with index `idx`: either how
    /// long until the *next* alert, or "locking screen" if this is the last
    /// one.
    pub fn subtitle(&self, idx: usize) -> (text: String)
        requires
            idx < self.plan@.len(),
        ensures
            text@ == subtitle_text(self.plan@, idx as int),
    {
        if idx == self.plan.waits.len() - 1 {
            "locking screen".to_owned()
        } else {
            "next nudge in ".to_owned().concat(humanize(self.plan.waits[idx + 1]).as_str())
        }
    }

    /// What to show for the alert with index `idx`.
    pub fn alert(&self, idx: usize) -> (alert: AlertRequest)
        requires
            idx < self.plan@.len(),
        ensures
            alert.beep == self.config.beep,
            alert.message == self.config.message,
            alert.subtitle@ == subtitle_text(self.plan@, idx as int),
            alert.duration == self.config.alert_duration,
    {
        AlertRequest {
            beep: self.config.beep,
            message: self.config.message.clone(),
            subtitle: self.subtitle(idx),
            duration: self.config.alert_duration,
        }
    }

    /// The step after the sleep with index `idx`. A sleep that was cancelled
    /// ends the run.
    pub fn after_sleep(&self, idx: usize, cancelled: bool) -> (step: Step)
        ensures
            step@ == step_after_sleep(idx as nat, cancelled),
    {
        if cancelled {
            Step::Done(Ok(()))
        } else {
            Step::Alert(idx)
        }
    }

    /// The step after the alert with index `idx`. One that failed ends the
    /// run with an error, and so does a cancelled one without. After the last
    /// one the screen is locked, after any other the next wait is due.
    pub fn after_alert(&self, idx: usize, shown: Result<(), UiError>, cancelled: bool) -> (step:
        Step)
        requires
            idx < self.plan@.len(),
        ensures
            step@ == step_after_alert(self.plan@.len(), idx as nat, shown, cancelled),
    {
        match shown {
            Err(e) => Step::Done(
                Err("alert failed: ".to_owned().concat(e.to_string().as_str())),
            ),
            Ok(()) => if cancelled {
                Step::Done(Ok(()))
            } else if idx == self.plan.waits.len() - 1 {
                Step::Lock
            } else {
                Step::Sleep(idx + 1)
            },
        }
    }

    /// The step after the lock: the run is over, and went as the lock did.
    pub fn after_lock(&self, locked: Result<(), String>) -> (step: Step)
        ensures
            step == Step::Done(locked),
    {
        Step::Done(locked)
    }
}

/// How long to sleep at a stretch while `remaining` is left of a wait, or
/// `None` if the wait is over or cancelled. Short stretches keep a
/// cancellation from going unnoticed.
pub fn sleep_slice(remaining: Duration, cancelled: bool) -> (slice: Option<Duration>)
    ensures
        slice is None <==> cancelled || remaining@ == 0,
        slice matches Some(d) ==> d@ == slice_nanos(remaining@) && 0 < d@ <= remaining@,
{
    let slice = Duration::from_millis(100);
    if cancelled || remaining.is_zero() {
        None
    } else if remaining < slice {
        Some(remaining)
    } else {
        Some(slice)
    }
}

/// How long to sleep at a stretch at the moment `now` of a wait that ends at
/// `deadline`, both on a clock that never goes backwards, or `None` if the
/// wait is over or cancelled.
///
/// What is left is taken from the clock each time. A stretch that took too
/// long makes the next ones shorter, and nothing adds up over a long wait.
pub fn sleep_until(deadline: Duration, now: Duration, cancelled: bool) -> (slice: Option<Duration>)
    ensures
        slice is None <==> cancelled || now@ >= deadline@,
        slice matches Some(d) ==> d@ == slice_nanos((deadline@ - now@) as nat) && 0 < d@ && now@
            + d@ <= deadline@,
{
    sleep_slice(deadline.saturating_sub(now), cancelled)
}

/// The nanoseconds to sleep at a stretch: a tenth of a second, or what is
/// left.
pub open spec fn slice_nanos(remaining: nat) -> nat {
    if remaining < 100_000_000 {
        remaining
    } else {
        100_000_000
    }
}

/// The exit code after a run. A cancelled run exits with the conventional
/// 128+N for signal N, or as for SIGTERM if the signal was not recorded.
pub fn exit_code(result: &Result<(), String>, cancelled: bool, signal: usize) -> (code: i32)
    requires
        128 + signal <= i32::MAX,
    ensures
        code == match result {
            Err(_) => EXIT_RUNTIME as int,
            Ok(()) => if !cancelled {
                0
            } else if signal == 0 {
                EXIT_SIGTERM as int
            } else {
                128 + signal
            },
        },
{
    match result {
        Err(_) => EXIT_RUNTIME,
        Ok(()) => if !cancelled {
            0
        } else if signal == 0 {
            EXIT_SIGTERM
        } else {
            128 + signal as i32
        },
    }
}

/// All steps from `step` on, where nothing fails and nothing is cancelled.
pub open spec fn undisturbed(count: nat, step: StepView) -> Seq<StepView>
    decreases
        match step {
            StepView::Sleep(idx) => 2 * (count - idx) + 2,
            StepView::Alert(idx) => 2 * (count - idx) + 1,
            StepView::Lock => 1int,
            StepView::Done(_) => 0,
        },
{
    match step {
        StepView::Sleep(idx) => if idx < count {
            seq![step] + undisturbed(count, step_after_sleep(idx, false))
        } else {
            seq![step]
        },
        StepView::Alert(idx) => if idx < count {
            seq![step] + undisturbed(count, step_after_alert(count, idx, Ok(()), false))
        } else {
            seq![step]
        },
        StepView::Lock => seq![step] + undisturbed(count, StepView::Done(Ok(()))),
        StepView::Done(_) => seq![step],
    }
}

/// `count` pairs of a sleep and an alert, from index `from` on.
pub open spec fn sleeps_and_alerts(from: nat, count: nat) -> Seq<StepView> {
    Seq::new(
        2 * count,
        |k: int|
            if k % 2 == 0 {
                StepView::Sleep((from + k / 2) as nat)
            } else {
                StepView::Alert((from + k / 2) as nat)
            },
    )
}

/// Left alone, a run sleeps each wait of the plan in turn, each one followed
/// by its alert, then locks the screen once, and ends without an error.
pub proof fn run_walks_plan(count: nat)
    requires
        count > 0,
    ensures
        undisturbed(count, first_step(count)) == sleeps_and_alerts(0, count) + seq![
            StepView::Lock,
            StepView::Done(Ok(())),
        ],
{
    walks_from(count, 0);
}

/// Left alone, a run goes on in this way from any wait.
proof fn walks_from(count: nat, idx: nat)
    requires
        idx < count,
    ensures
        undisturbed(count, StepView::Sleep(idx)) == sleeps_and_alerts(idx, (count - idx) as nat)
            + seq![StepView::Lock, StepView::Done(Ok(()))],
    decreases count - idx,
{
    reveal_with_fuel(undisturbed, 4);
    let all = sleeps_and_alerts(idx, (count - idx) as nat);
    if idx + 1 == count {
        assert(all =~= seq![StepView::Sleep(idx), StepView::Alert(idx)]);
    } else {
        walks_from(count, idx + 1);
        let rest = sleeps_and_alerts(idx + 1, (count - idx - 1) as nat);
        assert(all =~= seq![StepView::Sleep(idx), StepView::Alert(idx)] + rest);
    }
    assert(undisturbed(count, StepView::Sleep(idx)) =~= all + seq![
        StepView::Lock,
        StepView::Done(Ok(())),
    ]);
}

/// The nanoseconds slept in a series of steps.
pub open spec fn slept(waits: Seq<Duration>, steps: Seq<StepView>) -> nat
    decreases steps.len(),
{
    if steps.len() == 0 {
        0
    } else {
        slept(waits, steps.drop_last()) + match steps.last() {
            StepView::Sleep(idx) => waits[idx as int]@,
            _ => 0,
        }
    }
}

/// Left alone, a run sleeps as long as the plan is in total.
pub proof fn run_takes_total(waits: Seq<Duration>)
    requires
        waits.len() > 0,
    ensures
        slept(waits, undisturbed(waits.len(), first_step(waits.len()))) == crate::plan::sum_nanos(
            waits,
        ),
{
    reveal_with_fuel(slept, 3);
    let count = waits.len();
    run_walks_plan(count);
    let walk = sleeps_and_alerts(0, count);
    let locked = walk.push(StepView::Lock);
    let all = locked.push(StepView::Done(Ok(())));
    assert(walk + seq![StepView::Lock, StepView::Done(Ok(()))] =~= all);
    assert(all.drop_last() =~= locked);
    assert(locked.drop_last() =~= walk);
    slept_in_walk(waits, count);
    assert(waits.take(count as int) =~= waits);
}

/// The first `n` pairs of a sleep and an alert take as long as `n` waits.
proof fn slept_in_walk(waits: Seq<Duration>, n: nat)
    requires
        n <= waits.len(),
    ensures
        slept(waits, sleeps_and_alerts(0, n)) == crate::plan::sum_nanos(waits.take(n as int)),
    decreases n,
{
    reveal_with_fuel(slept, 3);
    if n == 0 {
        assert(sleeps_and_alerts(0, 0) =~= Seq::<StepView>::empty());
        assert(waits.take(0) =~= Seq::<Duration>::empty());
    } else {
        let before = sleeps_and_alerts(0, (n - 1) as nat);
        let asleep = before.push(StepView::Sleep((n - 1) as nat));
        let all = sleeps_and_alerts(0, n);
        slept_in_walk(waits, (n - 1) as nat);
        assert(all =~= asleep.push(StepView::Alert((n - 1) as nat)));
        assert(all.drop_last() =~= asleep);
        assert(asleep.drop_last() =~= before);
        assert(waits.take(n as int).drop_last() =~= waits.take(n - 1));
    }
}

/// Once cancelled, a run ends without an error and without a lock, unless the
/// alert that was up has failed.
pub proof fn cancelling_ends_run(count: nat, idx: nat, shown: Result<(), UiError>)
    ensures
        step_after_sleep(idx, true) == StepView::Done(Ok(())),
        step_after_alert(count, idx, shown, true) is Done,
        shown is Ok ==> step_after_alert(count, idx, shown, true) == StepView::Done(Ok(())),
{
}

/// The screen is locked after the last alert only, once it was shown.
pub proof fn locks_after_last_alert(
    count: nat,
    idx: nat,
    shown: Result<(), UiError>,
    cancelled: bool,
)
    ensures
        first_step(count) != StepView::Lock,
        step_after_sleep(idx, cancelled) != StepView::Lock,
        step_after_alert(count, idx, shown, cancelled) == StepView::Lock <==> shown is Ok
            && !cancelled && idx + 1 == count,
{
}

/// The subtitle of an alert announces the step that comes after it, if
/// nothing fails or is cancelled. It says "locking screen" where that is the
/// lock. Else it says "next nudge in " and the wait that is slept then, which
/// reads back, blanks aside, to its whole seconds below one hour and to its
/// whole minutes from there on.
pub proof fn subtitle_announces_next_step(waits: Seq<Duration>, idx: nat)
    requires
        idx < waits.len(),
    ensures
        ({
            let subtitle = subtitle_text(waits, idx as int);
            let intro = "next nudge in "@;
            let next = step_after_alert(waits.len(), idx, Ok(()), false);
            &&& next == StepView::Lock <==> idx + 1 == waits.len()
            &&& next == StepView::Lock ==> subtitle == "locking screen"@
            &&& next != StepView::Lock ==> {
                let wait = waits[next->Sleep_0 as int];
                let secs = wait@ / 1_000_000_000;
                let shown = subtitle.skip(intro.len() as int);
                &&& next is Sleep
                &&& next->Sleep_0 == idx + 1
                &&& subtitle == intro + shown
                &&& shown == crate::plan::humanized(secs)
                &&& 0 < secs <= u64::MAX ==> crate::duration::parsed(
                    shown.filter(|c: char| c != ' '),
                ) == Ok::<nat, crate::duration::ParseError>(
                    if secs < 3600 {
                        secs
                    } else {
                        (secs - secs % 60) as nat
                    },
                )
            }
        }),
{
    if idx + 1 < waits.len() {
        let intro = "next nudge in "@;
        let secs = waits[(idx + 1) as int]@ / 1_000_000_000;
        let subtitle = subtitle_text(waits, idx as int);
        assert(subtitle.skip(intro.len() as int) =~= crate::plan::humanized(secs));
        if 0 < secs <= u64::MAX {
            crate::plan::humanized_parses_back(secs);
        }
    }
}

/// An alert that was shown is followed by the next wait, or by the lock if it
/// was the last one. One that failed ends the run with an error that names
/// the reason, cancelled or not.
pub proof fn alert_leads_on(count: nat, idx: nat, reason: UiError, cancelled: bool)
    requires
        idx < count,
    ensures
        idx + 1 < count ==> step_after_alert(count, idx, Ok(()), false) == StepView::Sleep(idx + 1),
        idx + 1 == count ==> step_after_alert(count, idx, Ok(()), false) == StepView::Lock,
        step_after_alert(count, idx, Ok(()), true) == StepView::Done(Ok(())),
        step_after_alert(count, idx, Err(reason), cancelled) == StepView::Done(
            Err("alert failed: "@ + reason.text()),
        ),
        step_after_sleep(idx, false) == StepView::Alert(idx),
        first_step(count) == StepView::Sleep(0),
        first_step(0) == StepView::Done(Ok(())),
{
}

/// The view of a step keeps what the step is, its index and its reason.
pub proof fn step_view_is_faithful(idx: usize, reason: String)
    ensures
        Step::Sleep(idx)@ == StepView::Sleep(idx as nat),
        Step::Alert(idx)@ == StepView::Alert(idx as nat),
        Step::Lock@ == StepView::Lock,
        Step::Done(Ok(()))@ == StepView::Done(Ok(())),
        Step::Done(Err(reason))@ == StepView::Done(Err(reason@)),
{
}

/// A stretch of sleep is the longest that is no longer than a tenth of a
/// second and than what is left.
pub proof fn slice_is_longest_allowed(remaining: nat, stretch: nat)
    ensures
        stretch <= slice_nanos(remaining) <==> stretch <= remaining && stretch * 10
            <= 1_000_000_000,
{
}

/// The exit codes are the documented ones.
pub proof fn exit_codes_are_documented()
    ensures
        EXIT_USAGE == 2,
        EXIT_RUNTIME == 1,
        EXIT_SIGTERM == 128 + 15,
{
}

} // verus!

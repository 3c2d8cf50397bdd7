//! How to lock the screen: what to try, in which order, and when to stop.

use crate::text::{has, lowercase_chars};
use vstd::prelude::*;

verus! {

/// One way to lock the screen: a command to start.
#[derive(Debug)]
pub struct LockAttempt {
    /// The program and its arguments.
    pub argv: Vec<&'static str>,
    /// Whether the command is left running: it blocks until the user unlocks,
    /// so waiting for it would never end. It has worked once it is started.
    /// Any other command is waited for, and has worked if it exits
    /// successfully: merely starting it proves nothing.
    pub detached: bool,
}

/// A way to lock the screen, its command as text.
#[verifier::ext_equal]
pub struct AttemptView {
    pub argv: Seq<Seq<char>>,
    pub detached: bool,
}

/// The words of a command as text.
pub open spec fn words(argv: Seq<&'static str>) -> Seq<Seq<char>> {
    argv.map_values(|word: &'static str| word@)
}

impl View for LockAttempt {
    type V = AttemptView;

    open spec fn view(&self) -> AttemptView {
        AttemptView { argv: words(self.argv@), detached: self.detached }
    }
}

/// A list of ways to lock the screen as text.
pub open spec fn views(attempts: Seq<LockAttempt>) -> Seq<AttemptView> {
    attempts.map_values(|attempt: LockAttempt| attempt@)
}

/// A command that is waited for.
pub open spec fn one_shot(argv: Seq<Seq<char>>) -> AttemptView {
    AttemptView { argv, detached: false }
}

/// A program that is left running.
pub open spec fn detached(program: Seq<char>) -> AttemptView {
    AttemptView { argv: seq![program], detached: true }
}

/// What names the desktop: both environment values, in lower case.
pub open spec fn desktop_name(current: Seq<char>, session: Seq<char>) -> Seq<char> {
    crate::text::lowercase(current) + ":"@ + crate::text::lowercase(session)
}

/// `attempts` if `applies`, else none.
pub open spec fn if_applies(applies: bool, attempts: Seq<AttemptView>) -> Seq<AttemptView> {
    if applies {
        attempts
    } else {
        Seq::empty()
    }
}

/// What to try on a desktop, best first.
pub open spec fn attempts_for(desktop: Seq<char>) -> Seq<AttemptView> {
    seq![one_shot(seq!["loginctl"@, "lock-session"@])]
        + if_applies(crate::text::contains(desktop, "hyprland"@), seq![detached("hyprlock"@)])
        + if_applies(
        crate::text::contains(desktop, "kde"@) || crate::text::contains(desktop, "plasma"@),
        seq![
            one_shot(seq!["qdbus"@, "org.freedesktop.ScreenSaver"@, "/ScreenSaver"@, "Lock"@]),
            one_shot(
                seq![
                    "dbus-send"@,
                    "--session"@,
                    "--dest=org.freedesktop.ScreenSaver"@,
                    "--type=method_call"@,
                    "/ScreenSaver"@,
                    "org.freedesktop.ScreenSaver.Lock"@,
                ],
            ),
        ],
    ) + if_applies(
        crate::text::contains(desktop, "gnome"@) || crate::text::contains(desktop, "unity"@),
        seq![one_shot(seq!["gnome-screensaver-command"@, "--lock"@])],
    ) + seq![
        detached("hyprlock"@),
        detached("swaylock"@),
        detached("waylock"@),
        one_shot(seq!["xdg-screensaver"@, "lock"@]),
    ]
}

/// Add a command that is waited for.
fn push_one_shot(attempts: &mut Vec<LockAttempt>, argv: Vec<&'static str>)
    ensures
        views(final(attempts)@) == views(old(attempts)@).push(one_shot(words(argv@))),
{
    let attempt = LockAttempt { argv, detached: false };
    attempts.push(attempt);
    assert(views(attempts@) =~= views(old(attempts)@).push(attempt@));
}

/// Add a program that is left running.
fn push_detached(attempts: &mut Vec<LockAttempt>, program: &'static str)
    ensures
        views(final(attempts)@) == views(old(attempts)@).push(detached(program@)),
{
    let mut argv: Vec<&'static str> = Vec::new();
    argv.push(program);
    let attempt = LockAttempt { argv, detached: true };
    attempts.push(attempt);
    assert(words(attempt.argv@) =~= seq![program@]);
    assert(views(attempts@) =~= views(old(attempts)@).push(attempt@));
}

/// What to do next to lock the screen.
#[derive(Debug)]
pub enum LockStep {
    /// Try the way with this index.
    Try(usize),
    /// The screen is locked.
    Locked,
    /// It cannot be locked, for this reason.
    Failed(String),
}

/// A step of locking, its reason as text.
pub enum LockStepView {
    Try(nat),
    Locked,
    Failed(Seq<char>),
}

impl View for LockStep {
    type V = LockStepView;

    open spec fn view(&self) -> LockStepView {
        match self {
            LockStep::Try(idx) => LockStepView::Try(*idx as nat),
            LockStep::Locked => LockStepView::Locked,
            LockStep::Failed(reason) => LockStepView::Failed(reason@),
        }
    }
}

/// What is said where there is nothing to try.
pub open spec fn no_locker() -> Seq<char> {
    "could not find a screen locker; tried loginctl, hyprlock, swaylock, waylock, gnome-screensaver-command, xdg-screensaver. Install one or ensure loginctl lock-session works."@
}

/// How trying one way went, its reason as text.
pub open spec fn outcome_text(outcome: Result<(), String>) -> Result<(), Seq<char>> {
    match outcome {
        Ok(()) => Ok(()),
        Err(reason) => Err(reason@),
    }
}

/// The first step with `count` ways to try.
pub open spec fn first_attempt(count: nat) -> LockStepView {
    if count > 0 {
        LockStepView::Try(0)
    } else {
        LockStepView::Failed(no_locker())
    }
}

/// The step after the way with index `idx` of `count` was tried: the screen is
/// locked if it worked. If not, the next way is due, and after the last one
/// its reason is the reason that locking failed.
pub open spec fn step_after_attempt(
    count: nat,
    idx: nat,
    outcome: Result<(), Seq<char>>,
) -> LockStepView {
    match outcome {
        Ok(()) => LockStepView::Locked,
        Err(reason) => if idx + 1 < count {
            LockStepView::Try(idx + 1)
        } else {
            LockStepView::Failed(reason)
        },
    }
}

/// Locks the screen using the best available method: the first way that works
/// wins.
#[derive(Debug)]
pub struct Locker {
    pub attempts: Vec<LockAttempt>,
}

impl Locker {
    /// The ways to lock the screen on a desktop, given what the environment
    /// says of it.
    ///
    /// 1. `loginctl lock-session`: works on any desktop that registers a
    ///    locker with logind. This is the most portable option.
    /// 2. Desktop-specific commands.
    /// 3. Generic Wayland screen lockers.
    /// 4. `xdg-screensaver lock`: legacy X11/mixed fallback.
    pub fn new(current_desktop: &str, session_desktop: &str) -> (locker: Locker)
        ensures
            views(locker.attempts@) == attempts_for(
                desktop_name(current_desktop@, session_desktop@),
            ),
            locker.attempts@.len() > 0,
    {
        let mut desktop = lowercase_chars(current_desktop);
        desktop.push(':');
        let mut session = lowercase_chars(session_desktop);
        desktop.append(&mut session);
        proof {
            reveal_strlit(":");
            assert(desktop@ =~= desktop_name(current_desktop@, session_desktop@));
        }

        let mut attempts: Vec<LockAttempt> = Vec::new();
        assert(views(attempts@) =~= Seq::<AttemptView>::empty());
        push_one_shot(&mut attempts, vec!["loginctl", "lock-session"]);
        if has(&desktop, "hyprland") {
            push_detached(&mut attempts, "hyprlock");
        }
        if has(&desktop, "kde") || has(&desktop, "plasma") {
            push_one_shot(
                &mut attempts,
                vec!["qdbus", "org.freedesktop.ScreenSaver", "/ScreenSaver", "Lock"],
            );
            push_one_shot(
                &mut attempts,
                vec![
                    "dbus-send",
                    "--session",
                    "--dest=org.freedesktop.ScreenSaver",
                    "--type=method_call",
                    "/ScreenSaver",
                    "org.freedesktop.ScreenSaver.Lock",
                ],
            );
        }
        if has(&desktop, "gnome") || has(&desktop, "unity") {
            push_one_shot(&mut attempts, vec!["gnome-screensaver-command", "--lock"]);
        }
        push_detached(&mut attempts, "hyprlock");
        push_detached(&mut attempts, "swaylock");
        push_detached(&mut attempts, "waylock");
        push_one_shot(&mut attempts, vec!["xdg-screensaver", "lock"]);
        assert(views(attempts@) =~~= attempts_for(desktop@));
        Locker { attempts }
    }

    /// The first step.
    pub fn start(&self) -> (step: LockStep)
        ensures
            step@ == first_attempt(self.attempts@.len()),
    {
        if self.attempts.len() > 0 {
            LockStep::Try(0)
        } else {
            LockStep::Failed(
                "could not find a screen locker; tried loginctl, hyprlock, swaylock, waylock, gnome-screensaver-command, xdg-screensaver. Install one or ensure loginctl lock-session works.".to_owned(),
            )
        }
    }

    /// The step after the way with index `idx` was tried, and worked or failed
    /// for the given reason. If every way fails the error from the last one is
    /// the error of the whole.
    pub fn after_attempt(&self, idx: usize, outcome: Result<(), String>) -> (step: LockStep)
        requires
            idx < self.attempts@.len(),
        ensures
            step@ == step_after_attempt(
                self.attempts@.len(),
                idx as nat,
                outcome_text(outcome),
            ),
    {
        match outcome {
            Ok(()) => LockStep::Locked,
            Err(reason) => if idx < self.attempts.len() - 1 {
                LockStep::Try(idx + 1)
            } else {
                LockStep::Failed(reason)
            },
        }
    }
}

/// Where locking ends from `step` on, if trying way `i` goes as `outcomes[i]`
/// says, and which ways are tried until then.
pub open spec fn locking(outcomes: Seq<Result<(), Seq<char>>>, step: LockStepView) -> (
    Seq<nat>,
    LockStepView,
)
    decreases
        match step {
            LockStepView::Try(idx) => outcomes.len() - idx + 1,
            _ => 0int,
        },
{
    match step {
        LockStepView::Try(idx) => if idx < outcomes.len() {
            let (tried, end) = locking(
                outcomes,
                step_after_attempt(outcomes.len(), idx, outcomes[idx as int]),
            );
            (seq![idx] + tried, end)
        } else {
            (Seq::empty(), step)
        },
        _ => (Seq::empty(), step),
    }
}

/// Whether some way works.
pub open spec fn any_works(outcomes: Seq<Result<(), Seq<char>>>) -> bool {
    exists|i: int| 0 <= i < outcomes.len() && (#[trigger] outcomes[i]) is Ok
}

/// The first way that works wins: ways are tried in order up to it and no
/// further, and the screen is locked. If none works, all are tried and
/// locking fails with the error from the last one.
pub proof fn first_working_way_wins(outcomes: Seq<Result<(), Seq<char>>>)
    requires
        outcomes.len() > 0,
    ensures
        ({
            let (tried, end) = locking(outcomes, first_attempt(outcomes.len()));
            &&& end == LockStepView::Locked <==> any_works(outcomes)
            &&& !any_works(outcomes) ==> outcomes.last() is Err && end == LockStepView::Failed(
                outcomes.last()->Err_0,
            )
            &&& 0 < tried.len() <= outcomes.len()
            &&& forall|i: int| 0 <= i < tried.len() ==> #[trigger] tried[i] == i
            &&& forall|i: int| 0 <= i < tried.len() - 1 ==> (#[trigger] outcomes[i]) is Err
            &&& any_works(outcomes) ==> outcomes[tried.len() - 1] is Ok
            &&& !any_works(outcomes) ==> tried.len() == outcomes.len()
        }),
{
    locking_from(outcomes, 0);
    let (tried, _) = locking(outcomes, first_attempt(outcomes.len()));
    if outcomes[tried.len() - 1] is Ok {
        assert(any_works(outcomes));
    } else {
        assert(outcomes.last() == outcomes[tried.len() - 1]);
        assert(!any_works(outcomes));
    }
}

/// Locking from index `from` on.
proof fn locking_from(outcomes: Seq<Result<(), Seq<char>>>, from: nat)
    requires
        from < outcomes.len(),
    ensures
        ({
            let (tried, end) = locking(outcomes, LockStepView::Try(from));
            let stop = from + tried.len();
            &&& from < stop <= outcomes.len()
            &&& forall|i: int| 0 <= i < tried.len() ==> #[trigger] tried[i] == from + i
            &&& forall|i: int| from <= i < stop - 1 ==> (#[trigger] outcomes[i]) is Err
            &&& match outcomes[stop - 1] {
                Ok(()) => end == LockStepView::Locked,
                Err(reason) => end == LockStepView::Failed(reason) && stop == outcomes.len(),
            }
        }),
    decreases outcomes.len() - from,
{
    reveal_with_fuel(locking, 2);
    let (tried, _) = locking(outcomes, LockStepView::Try(from));
    if outcomes[from as int] is Err && from + 1 < outcomes.len() {
        locking_from(outcomes, from + 1);
        let (rest, _) = locking(outcomes, LockStepView::Try(from + 1));
        assert(tried =~= seq![from] + rest);
        assert forall|i: int| 0 <= i < tried.len() implies #[trigger] tried[i] == from + i by {
            if i > 0 {
                assert(tried[i] == rest[i - 1]);
            }
        }
    } else {
        assert(tried =~= seq![from]);
    }
}

/// What is tried depends on the two values that name the desktop, in lower
/// case, each on its own: `loginctl` comes first, then what belongs to each
/// desktop that one of the values names, then the lockers for any desktop.
pub proof fn desktop_decides_attempts(current: Seq<char>, session: Seq<char>)
    ensures
        ({
            let named = |word: Seq<char>|
                crate::text::contains(crate::text::lowercase(current), word)
                    || crate::text::contains(crate::text::lowercase(session), word);
            let hyprland = if named("hyprland"@) {
                seq![AttemptView { argv: seq!["hyprlock"@], detached: true }]
            } else {
                Seq::empty()
            };
            let kde = if named("kde"@) || named("plasma"@) {
                seq![
                    AttemptView {
                        argv: seq![
                            "qdbus"@,
                            "org.freedesktop.ScreenSaver"@,
                            "/ScreenSaver"@,
                            "Lock"@,
                        ],
                        detached: false,
                    },
                    AttemptView {
                        argv: seq![
                            "dbus-send"@,
                            "--session"@,
                            "--dest=org.freedesktop.ScreenSaver"@,
                            "--type=method_call"@,
                            "/ScreenSaver"@,
                            "org.freedesktop.ScreenSaver.Lock"@,
                        ],
                        detached: false,
                    },
                ]
            } else {
                Seq::empty()
            };
            let gnome = if named("gnome"@) || named("unity"@) {
                seq![
                    AttemptView {
                        argv: seq!["gnome-screensaver-command"@, "--lock"@],
                        detached: false,
                    },
                ]
            } else {
                Seq::empty()
            };
            attempts_for(desktop_name(current, session)) == seq![
                AttemptView { argv: seq!["loginctl"@, "lock-session"@], detached: false },
            ] + hyprland + kde + gnome + seq![
                AttemptView { argv: seq!["hyprlock"@], detached: true },
                AttemptView { argv: seq!["swaylock"@], detached: true },
                AttemptView { argv: seq!["waylock"@], detached: true },
                AttemptView { argv: seq!["xdg-screensaver"@, "lock"@], detached: false },
            ]
        }),
{
    reveal_strlit("hyprland");
    reveal_strlit("kde");
    reveal_strlit("plasma");
    reveal_strlit("gnome");
    reveal_strlit("unity");
    named_in_one_value(current, session, "hyprland"@);
    named_in_one_value(current, session, "kde"@);
    named_in_one_value(current, session, "plasma"@);
    named_in_one_value(current, session, "gnome"@);
    named_in_one_value(current, session, "unity"@);
}

/// A word without a colon is in the name of the desktop exactly if it is in
/// one of the two values.
proof fn named_in_one_value(current: Seq<char>, session: Seq<char>, word: Seq<char>)
    requires
        word.len() > 0,
        forall|i: int| 0 <= i < word.len() ==> #[trigger] word[i] != ':',
    ensures
        crate::text::contains(desktop_name(current, session), word) <==> crate::text::contains(
            crate::text::lowercase(current),
            word,
        ) || crate::text::contains(crate::text::lowercase(session), word),
{
    reveal_strlit(":");
    assert(":"@ =~= seq![':']);
    crate::text::contains_in_one_of_two(
        crate::text::lowercase(current),
        ':',
        crate::text::lowercase(session),
        word,
    );
}

/// More text in the value of either variable takes no attempt away.
pub proof fn more_text_keeps_attempts(
    before: Seq<char>,
    current: Seq<char>,
    after: Seq<char>,
    session: Seq<char>,
    attempt: AttemptView,
)
    ensures
        attempts_for(desktop_name(current, session)).contains(attempt) ==> attempts_for(
            desktop_name(before + current + after, session),
        ).contains(attempt),
        attempts_for(desktop_name(session, current)).contains(attempt) ==> attempts_for(
            desktop_name(session, before + current + after),
        ).contains(attempt),
{
    let longer = before + current + after;
    reveal_strlit("hyprland");
    reveal_strlit("kde");
    reveal_strlit("plasma");
    reveal_strlit("gnome");
    reveal_strlit("unity");
    more_text_keeps_words(before, current, after, session, "hyprland"@);
    more_text_keeps_words(before, current, after, session, "kde"@);
    more_text_keeps_words(before, current, after, session, "plasma"@);
    more_text_keeps_words(before, current, after, session, "gnome"@);
    more_text_keeps_words(before, current, after, session, "unity"@);
    more_words_keep_attempts(
        desktop_name(current, session),
        desktop_name(longer, session),
        attempt,
    );
    more_words_keep_attempts(
        desktop_name(session, current),
        desktop_name(session, longer),
        attempt,
    );
}

/// A word that is in the name of the desktop is still there with more text.
proof fn more_text_keeps_words(
    before: Seq<char>,
    current: Seq<char>,
    after: Seq<char>,
    session: Seq<char>,
    word: Seq<char>,
)
    requires
        word.len() > 0,
        forall|i: int| 0 <= i < word.len() ==> #[trigger] word[i] != ':',
    ensures
        crate::text::contains(desktop_name(current, session), word) ==> crate::text::contains(
            desktop_name(before + current + after, session),
            word,
        ),
        crate::text::contains(desktop_name(session, current), word) ==> crate::text::contains(
            desktop_name(session, before + current + after),
            word,
        ),
{
    let longer = before + current + after;
    named_in_one_value(current, session, word);
    named_in_one_value(longer, session, word);
    named_in_one_value(session, current, word);
    named_in_one_value(session, longer, word);
    assert(crate::text::lowercase(longer) =~= crate::text::lowercase(before)
        + crate::text::lowercase(current) + crate::text::lowercase(after));
    if crate::text::contains(crate::text::lowercase(current), word) {
        crate::text::contains_in_longer(
            crate::text::lowercase(before),
            crate::text::lowercase(current),
            crate::text::lowercase(after),
            word,
        );
    }
}

/// A desktop whose name has all words of another one has all its attempts.
proof fn more_words_keep_attempts(one: Seq<char>, other: Seq<char>, attempt: AttemptView)
    requires
        crate::text::contains(one, "hyprland"@) ==> crate::text::contains(other, "hyprland"@),
        crate::text::contains(one, "kde"@) ==> crate::text::contains(other, "kde"@),
        crate::text::contains(one, "plasma"@) ==> crate::text::contains(other, "plasma"@),
        crate::text::contains(one, "gnome"@) ==> crate::text::contains(other, "gnome"@),
        crate::text::contains(one, "unity"@) ==> crate::text::contains(other, "unity"@),
    ensures
        attempts_for(one).contains(attempt) ==> attempts_for(other).contains(attempt),
{
    broadcast use vstd::seq_lib::lemma_seq_concat_contains_all_elements;

}

/// An attempt that works locks the screen. One that fails leads to the next
/// one, or to failure with its own reason if it was the last.
pub proof fn attempt_leads_on(count: nat, idx: nat, reason: Seq<char>)
    requires
        idx < count,
    ensures
        first_attempt(count) == LockStepView::Try(0),
        step_after_attempt(count, idx, Ok(())) == LockStepView::Locked,
        idx + 1 < count ==> step_after_attempt(count, idx, Err(reason)) == LockStepView::Try(
            idx + 1,
        ),
        idx + 1 == count ==> step_after_attempt(count, idx, Err(reason)) == LockStepView::Failed(
            reason,
        ),
{
}

/// The views of attempts, of outcomes and of steps keep what they stand for,
/// word for word.
pub proof fn lock_views_are_faithful(
    attempts: Seq<LockAttempt>,
    i: int,
    j: int,
    idx: usize,
    reason: String,
)
    requires
        0 <= i < attempts.len(),
        0 <= j < attempts[i].argv@.len(),
    ensures
        views(attempts).len() == attempts.len(),
        views(attempts)[i].detached == attempts[i].detached,
        views(attempts)[i].argv.len() == attempts[i].argv@.len(),
        views(attempts)[i].argv[j] == attempts[i].argv@[j]@,
        outcome_text(Ok(())) == Ok::<(), Seq<char>>(()),
        outcome_text(Err(reason)) == Err::<(), Seq<char>>(reason@),
        LockStep::Try(idx)@ == LockStepView::Try(idx as nat),
        LockStep::Locked@ == LockStepView::Locked,
        LockStep::Failed(reason)@ == LockStepView::Failed(reason@),
{
}

} // verus!

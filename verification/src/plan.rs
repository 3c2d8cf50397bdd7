//! Pure timer arithmetic: the wait schedule ("plan"), defaults, and
//! human-readable duration formatting.
//!
//! Nothing in here sleeps, draws, or spawns processes: it is plain data and
//! math. How one wait decays into the next is handed in, so the schedule is
//! the same for any way of computing it.

use crate::text::format_decimal;
use crate::time::Duration;
use vstd::prelude::*;

verus! {

/// Default runway when none is given.
/// >= 2h initial -> 20m runway; otherwise 10m.
pub fn default_runway(initial: Duration) -> (runway: Duration)
    ensures
        runway@ == default_runway_nanos(initial@),
{
    if initial >= Duration::from_secs(2 * 3600) {
        Duration::from_secs(20 * 60)
    } else {
        Duration::from_secs(10 * 60)
    }
}

/// The default runway for an initial wait, both in nanoseconds.
pub open spec fn default_runway_nanos(initial: nat) -> nat {
    if initial >= 7_200_000_000_000 {
        1_200_000_000_000
    } else {
        600_000_000_000
    }
}

/// How `secs` seconds read: "2m 30s", "45s", "1h 5m". From one hour on the
/// seconds are left out.
pub open spec fn humanized(secs: nat) -> Seq<char> {
    let h = secs / 3600;
    let m = (secs % 3600) / 60;
    let s = secs % 60;
    if h > 0 && m > 0 {
        crate::text::decimal(h) + "h "@ + crate::text::decimal(m) + "m"@
    } else if h > 0 {
        crate::text::decimal(h) + "h"@
    } else if m > 0 && s > 0 {
        crate::text::decimal(m) + "m "@ + crate::text::decimal(s) + "s"@
    } else if m > 0 {
        crate::text::decimal(m) + "m"@
    } else {
        crate::text::decimal(s) + "s"@
    }
}

/// A number and the text that follows it.
fn counted(n: u64, unit: &str) -> (text: String)
    ensures
        text@ == crate::text::decimal(n as nat) + unit@,
{
    let mut text = format_decimal(n);
    text.append(unit);
    text
}

/// Format a length of time as a short human string: "2m 30s", "45s", "1h 5m".
/// Seconds are dropped above 1 hour (granularity isn't useful at that range).
pub fn humanize(d: Duration) -> (text: String)
    ensures
        text@ == humanized(d.secs()),
        text@.len() > 0,
{
    let total: u64 = d.as_secs();
    let h: u64 = total / 3600;
    let m: u64 = (total % 3600) / 60;
    let s: u64 = total % 60;
    proof {
        crate::text::decimal_reads_back(h as nat);
        crate::text::decimal_reads_back(m as nat);
        crate::text::decimal_reads_back(s as nat);
    }
    if h == 0 && m == 0 {
        counted(s, "s")
    } else if h == 0 && s == 0 {
        counted(m, "m")
    } else if h == 0 {
        let mut text = counted(m, "m ");
        text.append(counted(s, "s").as_str());
        assert(text@ =~= humanized(total as nat));
        text
    } else if m == 0 {
        counted(h, "h")
    } else {
        let mut text = counted(h, "h ");
        text.append(counted(m, "m").as_str());
        assert(text@ =~= humanized(total as nat));
        text
    }
}

/// The algorithm's output as a pure data structure: the sequence of waits
/// the program will perform before each alert. The number of alerts equals
/// `waits.len()`. After the final alert the screen is locked.
///
/// `waits[0]` is always the initial duration (sleep before alert 1).
/// `waits[1..]` are post-alert sleeps, each one decayed from the previous.
/// The loop stops generating waits when the next decayed value would be
/// at or below the floor: that wait is omitted (we lock instead).
#[derive(Debug, Clone, PartialEq, Eq)]
pub struct Plan {
    pub waits: Vec<Duration>,
}

impl View for Plan {
    type V = Seq<Duration>;

    open spec fn view(&self) -> Seq<Duration> {
        self.waits@
    }
}

/// The nanoseconds that a sequence of waits adds up to.
pub open spec fn sum_nanos(waits: Seq<Duration>) -> nat
    decreases waits.len(),
{
    if waits.len() == 0 {
        0
    } else {
        sum_nanos(waits.drop_last()) + waits.last()@
    }
}

/// A longer sequence of waits adds up to at least as much.
proof fn sum_nanos_grows(waits: Seq<Duration>, i: int)
    requires
        0 <= i <= waits.len(),
    ensures
        sum_nanos(waits.take(i)) <= sum_nanos(waits),
    decreases waits.len(),
{
    if i == waits.len() {
        assert(waits.take(i) =~= waits);
    } else {
        sum_nanos_grows(waits.drop_last(), i);
        assert(waits.drop_last().take(i) =~= waits.take(i));
    }
}

impl Plan {
    /// Total wall-clock time from the start until the screen lock, not
    /// counting alert overlay duration (typically ~2s per alert, which is
    /// negligible against the multi-minute waits).
    pub fn total(&self) -> (total: Duration)
        requires
            sum_nanos(self@) <= crate::time::MAX_NANOS,
        ensures
            total@ == sum_nanos(self@),
    {
        let mut total = Duration::from_secs(0);
        for i in 0..self.waits.len()
            invariant
                sum_nanos(self@) <= crate::time::MAX_NANOS,
                total@ == sum_nanos(self@.take(i as int)),
        {
            proof {
                sum_nanos_grows(self@, i + 1);
                assert(self@.take(i + 1).drop_last() =~= self@.take(i as int));
            }
            total = total.checked_add(self.waits[i]).unwrap();
        }
        assert(self@.take(self@.len() as int) =~= self@);
        total
    }

    /// Number of alerts the user will see before the lock.
    pub fn alert_count(&self) -> (count: usize)
        ensures
            count == self@.len(),
    {
        self.waits.len()
    }
}

/// The wait that entry `i` of `tail` is decayed from: the one before it, or
/// the runway for the first entry.
pub open spec fn decayed_from(runway: Duration, tail: Seq<Duration>, i: int) -> Duration {
    if i == 0 {
        runway
    } else {
        tail[i - 1]
    }
}

/// Whether `tail` is a series of waits above the floor, each one decayed from
/// the one before it and the first one from the runway.
pub open spec fn is_tail<F: Fn(Duration) -> Duration>(
    decay: F,
    runway: Duration,
    floor: Duration,
    tail: Seq<Duration>,
) -> bool {
    forall|i: int|
        0 <= i < tail.len() ==> (#[trigger] tail[i])@ > floor@ && call_ensures(
            decay,
            (decayed_from(runway, tail, i),),
            tail[i],
        )
}

/// Whether decaying from the runway reaches the floor after a limited number
/// of steps.
pub open spec fn reaches_floor<F: Fn(Duration) -> Duration>(
    decay: F,
    runway: Duration,
    floor: Duration,
) -> bool {
    exists|limit: nat| is_limit(decay, runway, floor, limit)
}

/// Whether no series of waits above the floor is longer than `limit`.
pub open spec fn is_limit<F: Fn(Duration) -> Duration>(
    decay: F,
    runway: Duration,
    floor: Duration,
    limit: nat,
) -> bool {
    forall|tail: Seq<Duration>| #[trigger]
        is_tail(decay, runway, floor, tail) ==> tail.len() <= limit
}

/// Whether `waits` is the schedule for the given parameters: the initial
/// wait, then waits decayed from the runway for as long as they stay above
/// the floor, up to the one whose decayed value no longer does.
pub open spec fn is_schedule<F: Fn(Duration) -> Duration>(
    waits: Seq<Duration>,
    initial: Duration,
    runway: Duration,
    decay: F,
    floor: Duration,
) -> bool {
    let tail = waits.skip(1);
    &&& waits.len() > 0
    &&& waits[0] == initial
    &&& is_tail(decay, runway, floor, tail)
    &&& exists|omitted: Duration|
        #[trigger] call_ensures(
            decay,
            (decayed_from(runway, tail, tail.len() as int),),
            omitted,
        ) && omitted@ <= floor@
}

/// Compute the full plan up-front, given the algorithm parameters.
///
/// This is the single source of truth for the timer behaviour.
///
/// Semantics:
///   - `waits[0]` is the initial wait (before alert 1).
///   - For each subsequent alert N, `waits[N-1]` is `decay(prev_wait)` where
///     `prev_wait` starts at `runway` and is replaced by `decay(prev_wait)`
///     each iteration.
///   - The loop terminates when `decay(prev_wait) <= floor`; the final alert
///     is the one with `next <= floor`, after which the screen locks.
pub fn plan<F: Fn(Duration) -> Duration>(
    initial: Duration,
    runway: Duration,
    decay: F,
    floor: Duration,
) -> (plan: Plan)
    requires
        forall|d: Duration| #[trigger] call_requires(decay, (d,)),
        reaches_floor(decay, runway, floor),
    ensures
        is_schedule(plan@, initial, runway, decay, floor),
{
    let ghost limit = choose|limit: nat| is_limit(decay, runway, floor, limit);
    let mut waits: Vec<Duration> = Vec::new();
    waits.push(initial);
    let mut wait = runway;
    loop
        invariant
            forall|d: Duration| #[trigger] call_requires(decay, (d,)),
            is_limit(decay, runway, floor, limit),
            waits@.len() > 0,
            waits@[0] == initial,
            is_tail(decay, runway, floor, waits@.skip(1)),
            wait == decayed_from(runway, waits@.skip(1), waits@.len() - 1),
        ensures
            is_schedule(waits@, initial, runway, decay, floor),
        decreases limit + 1 - waits@.len(),
    {
        let next = decay(wait);
        if next <= floor {
            // The alert about to fire is the final one; lock follows.
            // No further wait is scheduled.
            break;
        }
        // `next` becomes the actual sleep before the *following* alert.
        let ghost before = waits@;
        waits.push(next);
        proof {
            let tail = waits@.skip(1);
            assert(tail =~= before.skip(1).push(next));
            assert forall|i: int| 0 <= i < tail.len() implies (#[trigger] tail[i])@ > floor@
                && call_ensures(decay, (decayed_from(runway, tail, i),), tail[i]) by {
                if i < before.len() - 1 {
                    assert(tail[i] == before.skip(1)[i]);
                    assert(decayed_from(runway, tail, i) == decayed_from(
                        runway,
                        before.skip(1),
                        i,
                    ));
                }
            }
            assert(is_tail(decay, runway, floor, tail));
        }
        wait = next;
    }
    Plan { waits }
}

/// Whether every decayed wait that is still above the floor is shorter than
/// the wait it was decayed from.
pub open spec fn shrinks_above<F: Fn(Duration) -> Duration>(decay: F, floor: Duration) -> bool {
    forall|d: Duration, r: Duration| #[trigger]
        call_ensures(decay, (d,), r) && r@ > floor@ ==> r@ < d@
}

/// A decay that shrinks every wait above the floor gets to the floor, from
/// any runway.
pub proof fn shrinking_reaches_floor<F: Fn(Duration) -> Duration>(
    decay: F,
    runway: Duration,
    floor: Duration,
)
    requires
        shrinks_above(decay, floor),
    ensures
        reaches_floor(decay, runway, floor),
{
    assert forall|tail: Seq<Duration>| #[trigger] is_tail(decay, runway, floor, tail) implies
        tail.len() <= runway@ by {
        if tail.len() > 0 {
            tail_shrinks(decay, runway, floor, tail, tail.len() - 1);
        }
    }
    assert(is_limit(decay, runway, floor, runway@));
}

/// Entry `i` of a shrinking series is shorter than the runway by at least one
/// nanosecond for each step.
proof fn tail_shrinks<F: Fn(Duration) -> Duration>(
    decay: F,
    runway: Duration,
    floor: Duration,
    tail: Seq<Duration>,
    i: int,
)
    requires
        shrinks_above(decay, floor),
        is_tail(decay, runway, floor, tail),
        0 <= i < tail.len(),
    ensures
        tail[i]@ + i < runway@,
    decreases i,
{
    assert(tail[i]@ < decayed_from(runway, tail, i)@);
    if i > 0 {
        tail_shrinks(decay, runway, floor, tail, i - 1);
    }
}

/// Whether each wait decays in one way only.
pub open spec fn is_function<F: Fn(Duration) -> Duration>(decay: F) -> bool {
    forall|d: Duration, r: Duration, q: Duration| #[trigger]
        call_ensures(decay, (d,), r) && #[trigger] call_ensures(decay, (d,), q) ==> r == q
}

/// Where each wait decays in one way only, there is one schedule.
pub proof fn schedule_is_unique<F: Fn(Duration) -> Duration>(
    one: Seq<Duration>,
    other: Seq<Duration>,
    initial: Duration,
    runway: Duration,
    decay: F,
    floor: Duration,
)
    requires
        is_function(decay),
        is_schedule(one, initial, runway, decay, floor),
        is_schedule(other, initial, runway, decay, floor),
    ensures
        one == other,
{
    schedules_agree(one, other, initial, runway, decay, floor, one.len() - 1);
    schedules_agree(other, one, initial, runway, decay, floor, other.len() - 1);
    assert forall|i: int| 0 <= i < one.len() implies one[i] == other[i] by {
        schedules_agree(one, other, initial, runway, decay, floor, i);
    }
    assert(one =~= other);
}

/// A wait of one schedule is a wait of another one for the same parameters.
proof fn schedules_agree<F: Fn(Duration) -> Duration>(
    one: Seq<Duration>,
    other: Seq<Duration>,
    initial: Duration,
    runway: Duration,
    decay: F,
    floor: Duration,
    i: int,
)
    requires
        is_function(decay),
        is_schedule(one, initial, runway, decay, floor),
        is_schedule(other, initial, runway, decay, floor),
        0 <= i < one.len(),
    ensures
        i < other.len(),
        one[i] == other[i],
    decreases i,
{
    if i > 0 {
        schedules_agree(one, other, initial, runway, decay, floor, i - 1);
        let a = one.skip(1);
        let b = other.skip(1);
        let from = decayed_from(runway, a, i - 1);
        assert(from == decayed_from(runway, b, i - 1));
        assert(a[i - 1] == one[i]);
        assert(call_ensures(decay, (from,), a[i - 1]));
        if i < other.len() {
            assert(b[i - 1] == other[i]);
            assert(call_ensures(decay, (from,), b[i - 1]));
        } else {
            assert(b.len() == i - 1);
        }
    }
}

/// After the initial wait every wait is above the floor, shorter than the
/// runway, and shorter than all waits before it but the initial one.
pub proof fn tail_strictly_decreases<F: Fn(Duration) -> Duration>(
    waits: Seq<Duration>,
    initial: Duration,
    runway: Duration,
    decay: F,
    floor: Duration,
)
    requires
        shrinks_above(decay, floor),
        is_schedule(waits, initial, runway, decay, floor),
    ensures
        forall|i: int| 1 <= i < waits.len() ==> floor@ < (#[trigger] waits[i])@ < runway@,
        forall|i: int, j: int|
            1 <= i < j < waits.len() ==> (#[trigger] waits[i])@ > (#[trigger] waits[j])@,
{
    let tail = waits.skip(1);
    assert forall|i: int| 1 <= i < waits.len() implies floor@ < (#[trigger] waits[i])@
        < runway@ by {
        assert(tail[i - 1] == waits[i]);
        tail_shrinks(decay, runway, floor, tail, i - 1);
    }
    assert forall|i: int, j: int| 1 <= i < j < waits.len() implies (#[trigger] waits[i])@ > (
    #[trigger] waits[j])@ by {
        later_is_shorter(decay, runway, floor, tail, i - 1, j - 1);
        assert(tail[i - 1] == waits[i]);
        assert(tail[j - 1] == waits[j]);
    }
}

/// A later entry of a shrinking series is shorter than an earlier one.
proof fn later_is_shorter<F: Fn(Duration) -> Duration>(
    decay: F,
    runway: Duration,
    floor: Duration,
    tail: Seq<Duration>,
    i: int,
    j: int,
)
    requires
        shrinks_above(decay, floor),
        is_tail(decay, runway, floor, tail),
        0 <= i < j < tail.len(),
    ensures
        tail[i]@ > tail[j]@,
    decreases j,
{
    assert(tail[j]@ < decayed_from(runway, tail, j)@);
    if i < j - 1 {
        later_is_shorter(decay, runway, floor, tail, i, j - 1);
    }
}

/// There is a single alert, after the initial wait, exactly if the runway
/// decays to the floor at once.
pub proof fn single_alert_at_floor<F: Fn(Duration) -> Duration>(
    waits: Seq<Duration>,
    initial: Duration,
    runway: Duration,
    decay: F,
    floor: Duration,
)
    requires
        is_function(decay),
        is_schedule(waits, initial, runway, decay, floor),
    ensures
        waits == seq![initial] <==> exists|r: Duration| #[trigger]
            call_ensures(decay, (runway,), r) && r@ <= floor@,
{
    let tail = waits.skip(1);
    if waits.len() == 1 {
        assert(waits =~= seq![initial]);
        assert(decayed_from(runway, tail, 0) == runway);
    } else {
        assert(tail[0]@ > floor@);
        assert(call_ensures(decay, (decayed_from(runway, tail, 0),), tail[0]));
        assert(waits.len() != seq![initial].len());
    }
}

/// The total time is the initial wait and what follows it.
pub proof fn total_is_initial_and_tail(waits: Seq<Duration>)
    requires
        waits.len() > 0,
    ensures
        sum_nanos(waits) == waits[0]@ + sum_nanos(waits.skip(1)),
    decreases waits.len(),
{
    reveal_with_fuel(sum_nanos, 2);
    if waits.len() == 1 {
        assert(waits.drop_last() =~= Seq::<Duration>::empty());
        assert(waits.skip(1) =~= Seq::<Duration>::empty());
    } else {
        total_is_initial_and_tail(waits.drop_last());
        assert(waits.drop_last().skip(1) =~= waits.skip(1).drop_last());
    }
}

/// Whether a decayed wait is half of the wait it was decayed from, up to
/// `slack` nanoseconds in the double.
pub open spec fn halves<F: Fn(Duration) -> Duration>(decay: F, slack: nat) -> bool {
    forall|d: Duration, r: Duration| #[trigger]
        call_ensures(decay, (d,), r) ==> d@ - slack <= 2 * r@ <= d@ + slack
}

/// Where every wait is halved, the waits after the initial one add up to the
/// runway, less two floors at most, and up to the rounding of each step. They
/// stay within the runway where the rounding comes to a floor at most.
pub proof fn halving_fills_runway<F: Fn(Duration) -> Duration>(
    waits: Seq<Duration>,
    initial: Duration,
    runway: Duration,
    decay: F,
    floor: Duration,
    slack: nat,
)
    requires
        halves(decay, slack),
        is_schedule(waits, initial, runway, decay, floor),
    ensures
        sum_nanos(waits.skip(1)) <= runway@ + (waits.len() - 1) * slack,
        runway@ <= sum_nanos(waits.skip(1)) + 2 * floor@ + waits.len() * slack,
        (waits.len() - 1) * slack <= floor@ ==> sum_nanos(waits.skip(1)) <= runway@,
{
    let tail = waits.skip(1);
    let n = tail.len() as int;
    halving_sum(decay, runway, floor, tail, slack, n);
    assert(tail.take(n) =~= tail);
    let omitted = choose|omitted: Duration| #[trigger]
        call_ensures(decay, (decayed_from(runway, tail, n),), omitted) && omitted@ <= floor@;
    assert(decayed_from(runway, tail, n)@ <= 2 * omitted@ + slack);
    assert((n + 1) * slack == n * slack + slack) by (nonlinear_arith);
    if n > 0 {
        assert(tail[n - 1]@ > floor@);
    }
}

/// The first `n` halved waits and the last of them once more come to the
/// runway, up to the rounding of each step.
proof fn halving_sum<F: Fn(Duration) -> Duration>(
    decay: F,
    runway: Duration,
    floor: Duration,
    tail: Seq<Duration>,
    slack: nat,
    n: int,
)
    requires
        halves(decay, slack),
        is_tail(decay, runway, floor, tail),
        0 <= n <= tail.len(),
    ensures
        runway@ - n * slack <= sum_nanos(tail.take(n)) + decayed_from(runway, tail, n)@ <= runway@
            + n * slack,
    decreases n,
{
    if n == 0 {
        assert(tail.take(0) =~= Seq::<Duration>::empty());
    } else {
        halving_sum(decay, runway, floor, tail, slack, n - 1);
        assert(tail.take(n).drop_last() =~= tail.take(n - 1));
        assert(call_ensures(decay, (decayed_from(runway, tail, n - 1),), tail[n - 1]));
        assert(n * slack == (n - 1) * slack + slack) by (nonlinear_arith);
    }
}

/// A length of time read back from its humanized form, blanks aside, is what
/// it was, cut to whole seconds below one hour and to whole minutes from
/// there on.
pub proof fn humanized_parses_back(secs: nat)
    requires
        0 < secs <= u64::MAX,
    ensures
        crate::duration::parsed(humanized(secs).filter(|c: char| c != ' ')) == Ok::<
            nat,
            crate::duration::ParseError,
        >(
            if secs < 3600 {
                secs
            } else {
                (secs - secs % 60) as nat
            },
        ),
{
    let shown = if secs < 3600 {
        secs
    } else {
        (secs - secs % 60) as nat
    };
    let text = humanized(secs).filter(|c: char| c != ' ');
    let (h, m, s) = humanized_parts(secs);
    humanized_without_blanks(secs);
    humanized_parts_sum(secs);
    assert(crate::duration::spells(text, h, m, s));
    crate::duration::parse_follows_grammar(text, shown);
}

/// The digits that the humanized form shows for each unit.
spec fn humanized_parts(secs: nat) -> (Option<Seq<char>>, Option<Seq<char>>, Option<Seq<char>>) {
    let h = secs / 3600;
    let m = (secs % 3600) / 60;
    let s = secs % 60;
    (
        if h > 0 {
            Some(crate::text::decimal(h))
        } else {
            None
        },
        if m > 0 {
            Some(crate::text::decimal(m))
        } else {
            None
        },
        if h == 0 && (m == 0 || s > 0) {
            Some(crate::text::decimal(s))
        } else {
            None
        },
    )
}

/// The digits shown come to the time shown.
proof fn humanized_parts_sum(secs: nat)
    ensures
        ({
            let (h, m, s) = humanized_parts(secs);
            crate::duration::spelled_secs(h, m, s) == if secs < 3600 {
                secs
            } else {
                (secs - secs % 60) as nat
            }
        }),
{
    let h = secs / 3600;
    let m = (secs % 3600) / 60;
    let s = secs % 60;
    let (ph, pm, ps) = humanized_parts(secs);
    crate::text::decimal_reads_back(h);
    crate::text::decimal_reads_back(m);
    crate::text::decimal_reads_back(s);
    assert(crate::duration::unit_secs('h') == Some(3600nat));
    assert(crate::duration::unit_secs('m') == Some(60nat));
    assert(crate::duration::unit_secs('s') == Some(1nat));
    assert(crate::duration::component_secs(ph, 'h') == h * 3600);
    assert(crate::duration::component_secs(pm, 'm') == m * 60);
    assert(s * 1 == s);
    assert(h == 0 ==> crate::duration::component_secs(ps, 's') == s);
}

/// The humanized form without its blanks is the components it shows.
proof fn humanized_without_blanks(secs: nat)
    ensures
        ({
            let (h, m, s) = humanized_parts(secs);
            crate::duration::spells(humanized(secs).filter(|c: char| c != ' '), h, m, s)
        }),
{
    let no_blank = |c: char| c != ' ';
    let h = secs / 3600;
    let m = (secs % 3600) / 60;
    let s = secs % 60;
    let (ph, pm, ps) = humanized_parts(secs);
    decimal_has_no_blank(h);
    decimal_has_no_blank(m);
    decimal_has_no_blank(s);
    reveal_strlit("h ");
    reveal_strlit("m ");
    reveal_strlit("h");
    reveal_strlit("m");
    reveal_strlit("s");
    assert("h "@ =~= seq!['h', ' ']);
    assert("m "@ =~= seq!['m', ' ']);
    assert("h"@ =~= seq!['h']);
    assert("m"@ =~= seq!['m']);
    assert("s"@ =~= seq!['s']);
    if h > 0 && m > 0 {
        two_components_without_blank(h, 'h', "h "@, m, 'm', "m"@);
    } else if h > 0 {
        one_component_without_blank(h, 'h', "h"@);
    } else if m > 0 && s > 0 {
        two_components_without_blank(m, 'm', "m "@, s, 's', "s"@);
    } else if m > 0 {
        one_component_without_blank(m, 'm', "m"@);
    } else {
        one_component_without_blank(s, 's', "s"@);
    }
    assert(humanized(secs).filter(no_blank) =~= crate::duration::component(ph, 'h')
        + crate::duration::component(pm, 'm') + crate::duration::component(ps, 's'));
}

/// A number and its unit hold no blank.
proof fn one_component_without_blank(n: nat, unit: char, after: Seq<char>)
    requires
        unit != ' ',
        after == seq![unit] || after == seq![unit, ' '],
    ensures
        (crate::text::decimal(n) + after).filter(|c: char| c != ' ') == crate::text::decimal(
            n,
        ).push(unit),
{
    decimal_has_no_blank(n);
    unit_without_blank(unit);
    Seq::filter_distributes_over_add(crate::text::decimal(n), after, |c: char| c != ' ');
    assert(crate::text::decimal(n) + seq![unit] =~= crate::text::decimal(n).push(unit));
}

/// Two numbers with their units and a blank between them, without the blank.
proof fn two_components_without_blank(
    n: nat,
    unit: char,
    after: Seq<char>,
    k: nat,
    last: char,
    end: Seq<char>,
)
    requires
        unit != ' ',
        last != ' ',
        after == seq![unit, ' '],
        end == seq![last],
    ensures
        (crate::text::decimal(n) + after + crate::text::decimal(k) + end).filter(
            |c: char| c != ' ',
        ) == crate::text::decimal(n).push(unit) + crate::text::decimal(k).push(last),
{
    let no_blank = |c: char| c != ' ';
    one_component_without_blank(n, unit, after);
    one_component_without_blank(k, last, end);
    let first = crate::text::decimal(n) + after;
    let second = crate::text::decimal(k) + end;
    assert(crate::text::decimal(n) + after + crate::text::decimal(k) + end =~= first + second);
    Seq::filter_distributes_over_add(first, second, no_blank);
}

/// A decimal number holds no blank, and reads back.
proof fn decimal_has_no_blank(n: nat)
    ensures
        crate::text::decimal(n).filter(|c: char| c != ' ') == crate::text::decimal(n),
        crate::text::is_number(crate::text::decimal(n)),
        crate::text::number(crate::text::decimal(n)) == n,
{
    crate::text::decimal_reads_back(n);
    digits_have_no_blank(crate::text::decimal(n));
}

/// A run of digits holds no blank.
proof fn digits_have_no_blank(digits: Seq<char>)
    requires
        forall|i: int| 0 <= i < digits.len() ==> crate::text::is_digit(#[trigger] digits[i]),
    ensures
        digits.filter(|c: char| c != ' ') == digits,
    decreases digits.len(),
{
    reveal(Seq::filter);
    if digits.len() > 0 {
        let init = digits.drop_last();
        assert forall|i: int| 0 <= i < init.len() implies crate::text::is_digit(
            #[trigger] init[i],
        ) by {
            assert(init[i] == digits[i]);
        }
        digits_have_no_blank(init);
        assert(crate::text::is_digit(digits[digits.len() - 1]));
        assert(digits =~= init.push(digits.last()));
    } else {
        assert(digits =~= Seq::<char>::empty());
    }
}

/// Dropping blanks leaves a unit, with or without a blank behind it.
proof fn unit_without_blank(unit: char)
    requires
        unit != ' ',
    ensures
        seq![unit].filter(|c: char| c != ' ') == seq![unit],
        seq![unit, ' '].filter(|c: char| c != ' ') == seq![unit],
{
    reveal(Seq::filter);
    reveal_with_fuel(Seq::filter, 3);
    assert(seq![unit].drop_last() =~= Seq::<char>::empty());
    assert(seq![unit, ' '].drop_last() =~= seq![unit]);
    assert(Seq::<char>::empty().push(unit) =~= seq![unit]);
}

/// The default runway is twenty minutes from two hours of initial wait on,
/// and ten minutes below.
pub proof fn default_runway_steps_at_two_hours(initial: nat)
    ensures
        initial < 2 * 3600 * 1_000_000_000 <==> default_runway_nanos(initial) == 10 * 60
            * 1_000_000_000,
        initial >= 2 * 3600 * 1_000_000_000 <==> default_runway_nanos(initial) == 20 * 60
            * 1_000_000_000,
{
}

/// A time of `h` hours, `m` minutes and `s` seconds shows its two largest
/// units, without those that are zero and without seconds from one hour on.
/// Minutes and seconds are below sixty, and numbers have no leading zeros.
pub proof fn humanize_shows_components(
    h: nat,
    m: nat,
    s: nat,
    hours: Seq<char>,
    minutes: Seq<char>,
    seconds: Seq<char>,
)
    requires
        m < 60,
        s < 60,
        crate::text::is_numeral(hours, h),
        crate::text::is_numeral(minutes, m),
        crate::text::is_numeral(seconds, s),
    ensures
        h > 0 && m > 0 ==> humanized(3600 * h + 60 * m + s) == hours + seq!['h', ' '] + minutes
            + seq!['m'],
        h > 0 && m == 0 ==> humanized(3600 * h + 60 * m + s) == hours + seq!['h'],
        h == 0 && m > 0 && s > 0 ==> humanized(3600 * h + 60 * m + s) == minutes + seq!['m', ' ']
            + seconds + seq!['s'],
        h == 0 && m > 0 && s == 0 ==> humanized(3600 * h + 60 * m + s) == minutes + seq!['m'],
        h == 0 && m == 0 ==> humanized(3600 * h + 60 * m + s) == seconds + seq!['s'],
{
    let secs = 3600 * h + 60 * m + s;
    crate::text::numerals_are_unique(hours, h);
    crate::text::numerals_are_unique(minutes, m);
    crate::text::numerals_are_unique(seconds, s);
    assert(secs / 3600 == h);
    assert((secs % 3600) / 60 == m);
    assert(secs % 60 == s);
    reveal_strlit("h ");
    reveal_strlit("m ");
    reveal_strlit("h");
    reveal_strlit("m");
    reveal_strlit("s");
    assert("h "@ =~= seq!['h', ' ']);
    assert("m "@ =~= seq!['m', ' ']);
    assert("h"@ =~= seq!['h']);
    assert("m"@ =~= seq!['m']);
    assert("s"@ =~= seq!['s']);
}

/// Waits add up: none come to nothing, and one more adds its length.
pub proof fn waits_add_up(waits: Seq<Duration>, wait: Duration)
    ensures
        sum_nanos(Seq::empty()) == 0,
        sum_nanos(waits.push(wait)) == sum_nanos(waits) + wait@,
{
    assert(waits.push(wait).drop_last() =~= waits);
}

/// A schedule starts with the initial wait. Every later wait is above the
/// floor and comes from decaying the one before it, or the runway for the
/// first of them. It ends at the floor and nowhere else: what the last wait
/// decays to, or the runway where there is no later wait, is at or below the
/// floor.
pub proof fn schedule_ends_only_at_floor<F: Fn(Duration) -> Duration>(
    waits: Seq<Duration>,
    initial: Duration,
    runway: Duration,
    decay: F,
    floor: Duration,
    last: Duration,
)
    requires
        is_schedule(waits, initial, runway, decay, floor),
        waits.len() > 1 ==> last == waits[waits.len() - 1],
        waits.len() <= 1 ==> last == runway,
    ensures
        waits.len() > 0,
        waits[0] == initial,
        waits.len() > 1 ==> call_ensures(decay, (runway,), waits[1]),
        forall|i: int, j: int|
            1 <= i && j == i + 1 && j < waits.len() ==> call_ensures(
                decay,
                (#[trigger] waits[i],),
                #[trigger] waits[j],
            ),
        forall|i: int| 1 <= i < waits.len() ==> (#[trigger] waits[i])@ > floor@,
        exists|omitted: Duration| #[trigger]
            call_ensures(decay, (last,), omitted) && omitted@ <= floor@,
        (forall|d: Duration, r: Duration, q: Duration| #[trigger]
            call_ensures(decay, (d,), r) && #[trigger] call_ensures(decay, (d,), q) ==> r == q)
            ==> forall|next: Duration| #[trigger]
            call_ensures(decay, (last,), next) ==> next@ <= floor@,
{
    let tail = waits.skip(1);
    if waits.len() > 1 {
        assert(tail[0] == waits[1]);
        assert(decayed_from(runway, tail, 0) == runway);
    }
    assert forall|i: int, j: int| 1 <= i && j == i + 1 && j < waits.len() implies call_ensures(
        decay,
        (#[trigger] waits[i],),
        #[trigger] waits[j],
    ) by {
        assert(tail[i - 1] == waits[i]);
        assert(tail[i] == waits[j]);
        assert(decayed_from(runway, tail, i) == waits[i]);
    }
    assert forall|i: int| 1 <= i < waits.len() implies (#[trigger] waits[i])@ > floor@ by {
        assert(tail[i - 1] == waits[i]);
    }
    assert(decayed_from(runway, tail, tail.len() as int) == last);
}

/// Where each wait decays in one way only, the schedule is the initial wait
/// and all values of the iterated decay of the runway before the first one at
/// or below the floor.
pub proof fn schedule_is_iterated_decay<F: Fn(Duration) -> Duration>(
    waits: Seq<Duration>,
    initial: Duration,
    runway: Duration,
    decay: F,
    floor: Duration,
    iterated: Seq<Duration>,
)
    requires
        forall|d: Duration, r: Duration, q: Duration| #[trigger]
            call_ensures(decay, (d,), r) && #[trigger] call_ensures(decay, (d,), q) ==> r == q,
        is_schedule(waits, initial, runway, decay, floor),
        iterated.len() > 0,
        call_ensures(decay, (runway,), iterated[0]),
        forall|i: int, j: int|
            0 <= i && j == i + 1 && j < iterated.len() ==> call_ensures(
                decay,
                (#[trigger] iterated[i],),
                #[trigger] iterated[j],
            ),
        forall|i: int| 0 <= i < iterated.len() - 1 ==> (#[trigger] iterated[i])@ > floor@,
        iterated[iterated.len() - 1]@ <= floor@,
    ensures
        waits == seq![initial] + iterated.drop_last(),
        waits.len() == iterated.len(),
{
    let n = waits.len() as int;
    let last = if n == 1 {
        runway
    } else {
        waits[n - 1]
    };
    schedule_ends_only_at_floor(waits, initial, runway, decay, floor, last);
    assert forall|i: int| 0 <= i < n implies i < iterated.len() && (i > 0 ==> waits[i]
        == iterated[i - 1]) by {
        agrees_with_iterated(waits, runway, decay, floor, iterated, i);
    }
    if n < iterated.len() {
        assert(call_ensures(decay, (last,), iterated[n - 1])) by {
            if n > 1 {
                assert(waits[n - 1] == iterated[n - 2]);
            }
        }
        assert(iterated[n - 1]@ > floor@);
    }
    assert(waits =~= seq![initial] + iterated.drop_last());
}

/// Wait `n` of a schedule is value `n` of the iterated decay.
proof fn agrees_with_iterated<F: Fn(Duration) -> Duration>(
    waits: Seq<Duration>,
    runway: Duration,
    decay: F,
    floor: Duration,
    iterated: Seq<Duration>,
    n: int,
)
    requires
        is_function(decay),
        waits.len() > 1 ==> call_ensures(decay, (runway,), waits[1]),
        forall|i: int, j: int|
            1 <= i && j == i + 1 && j < waits.len() ==> call_ensures(
                decay,
                (#[trigger] waits[i],),
                #[trigger] waits[j],
            ),
        forall|i: int| 1 <= i < waits.len() ==> (#[trigger] waits[i])@ > floor@,
        iterated.len() > 0,
        call_ensures(decay, (runway,), iterated[0]),
        forall|i: int, j: int|
            0 <= i && j == i + 1 && j < iterated.len() ==> call_ensures(
                decay,
                (#[trigger] iterated[i],),
                #[trigger] iterated[j],
            ),
        iterated[iterated.len() - 1]@ <= floor@,
        0 <= n < waits.len(),
    ensures
        n < iterated.len(),
        n > 0 ==> waits[n] == iterated[n - 1],
    decreases n,
{
    if n > 0 {
        agrees_with_iterated(waits, runway, decay, floor, iterated, n - 1);
        let from = if n == 1 {
            runway
        } else {
            waits[n - 1]
        };
        assert(call_ensures(decay, (from,), waits[n]));
        assert(call_ensures(decay, (from,), iterated[n - 1])) by {
            if n > 1 {
                assert(waits[n - 1] == iterated[n - 2]);
            }
        }
        assert(waits[n]@ > floor@);
    }
}

} // verus!

use crate::draw::Course;
use crate::person::RECOVERY_DAYS;
use crate::schedule::{Phase, Schedule, ScheduleView};
use crate::tally::Tally;
use crate::trial::{run_trial, trial_outcome, Courses, Role, HORIZON};
use vstd::arithmetic::div_mod::{lemma_fundamental_div_mod_converse_div, lemma_fundamental_div_mod_converse_mod};
use vstd::multiset::{group_multiset_axioms, Multiset};
use vstd::prelude::*;

verus! {

broadcast use group_multiset_axioms;

/// The person who carries the first infection, in the order that `run_n` takes them.
pub open spec fn source_role(s: int) -> Role {
    if s == 0 {
        Role::A
    } else if s == 1 {
        Role::Hub
    } else {
        Role::C
    }
}

fn source(s: u64) -> (r: Role)
    ensures
        r == source_role(s as int),
{
    if s == 0 {
        Role::A
    } else if s == 1 {
        Role::Hub
    } else {
        Role::C
    }
}

/// The outcome of trial `i` of `run_n`, which runs `n` trials for each start
/// day and first carrier: by start day, then by first carrier, then by repeat.
pub open spec fn nth_trial(i: int, n: nat, b_test: Option<u64>, s: ScheduleView, courses: Courses) -> (
    u64,
    u64,
) {
    let r = trial_outcome(i / (3 * n as int), source_role((i / n as int) % 3), b_test, s, courses);
    (r.0 as u64, r.1 as u64)
}

/// The outcomes of the first `cs.len()` trials of `run_n`, trial `i` taking the
/// courses `cs[i]`.
pub open spec fn trials_tally(cs: Seq<Courses>, n: nat, b_test: Option<u64>, s: ScheduleView) -> Multiset<
    (u64, u64),
>
    decreases cs.len(),
{
    if cs.len() == 0 {
        Multiset::empty()
    } else {
        trials_tally(cs.drop_last(), n, b_test, s).insert(
            nth_trial(cs.len() - 1, n, b_test, s, cs.last()),
        )
    }
}

/// Draws one course from `draw_incubation`, or returns the incubation drawn if it
/// exceeds `limit`.
fn draw_course<F: Fn() -> u64>(draw_incubation: &F, limit: u64) -> (r: Result<Course, u64>)
    requires
        call_requires(*draw_incubation, ()),
    ensures
        match r {
            Ok(course) => course.incubation <= limit,
            Err(x) => x > limit && call_ensures(*draw_incubation, (), x),
        },
{
    let x = draw_incubation();
    if x > limit {
        return Err(x);
    }
    Ok(Course::draw(x))
}

/// Runs `n` trials for each start day of the cycle and each person who may carry
/// the first infection, drawing every course afresh, and tallies their outcomes.
/// Fails with the incubation drawn if one is so long that its dates would not fit
/// in a `u64`.
pub fn run_n<F: Fn() -> u64>(n: u64, b_test: Option<u64>, schedule: &Schedule, draw_incubation: &F) -> (r: Result<
    Tally,
    u64,
>)
    requires
        forall|| call_requires(*draw_incubation, ()),
        n * schedule@.cycle_len() * 3 <= u64::MAX,
        schedule@.cycle_len() + HORIZON + RECOVERY_DAYS <= u64::MAX,
    ensures
        match r {
            Ok(t) => {
                &&& t.wf()
                &&& t@.len() == n * schedule@.cycle_len() * 3
                &&& exists|cs: Seq<Courses>|
                    {
                        &&& cs.len() == n * schedule@.cycle_len() * 3
                        &&& forall|i: int|
                            0 <= i < cs.len() ==> (#[trigger] cs[i]).fit_until(
                                schedule@.cycle_len() + HORIZON - 1,
                            )
                        &&& t@ == trials_tally(cs, n as nat, b_test, schedule@)
                    }
            },
            Err(x) => x + schedule@.cycle_len() + HORIZON + RECOVERY_DAYS > u64::MAX && call_ensures(
                *draw_incubation,
                (),
                x,
            ),
        },
{
    let cycle_len = schedule.cycle_len();
    let limit = u64::MAX - HORIZON - RECOVERY_DAYS - cycle_len;
    let mut tally = Tally::new();
    let ghost mut cs: Seq<Courses> = Seq::empty();
    let mut day: u64 = 0;
    assert(tally@.len() == 0 * 3 * n) by (nonlinear_arith)
        requires
            tally@.len() == 0,
    ;
    while day < cycle_len
        invariant
            forall|| call_requires(*draw_incubation, ()),
            cycle_len == schedule@.cycle_len(),
            n * cycle_len * 3 <= u64::MAX,
            limit == u64::MAX - HORIZON - RECOVERY_DAYS - cycle_len,
            day <= cycle_len,
            tally.wf(),
            tally@.len() == day * 3 * n,
            cs.len() == day * 3 * n,
            forall|i: int| 0 <= i < cs.len() ==> (#[trigger] cs[i]).fit_until(cycle_len + HORIZON - 1),
            tally@ == trials_tally(cs, n as nat, b_test, schedule@),
        decreases cycle_len - day,
    {
        let mut s: u64 = 0;
        while s < 3
            invariant
                forall|| call_requires(*draw_incubation, ()),
                cycle_len == schedule@.cycle_len(),
                n * cycle_len * 3 <= u64::MAX,
                limit == u64::MAX - HORIZON - RECOVERY_DAYS - cycle_len,
                day < cycle_len,
                s <= 3,
                tally.wf(),
                tally@.len() == (day * 3 + s) * n,
                cs.len() == (day * 3 + s) * n,
                forall|i: int| 0 <= i < cs.len() ==> (#[trigger] cs[i]).fit_until(cycle_len + HORIZON - 1),
                tally@ == trials_tally(cs, n as nat, b_test, schedule@),
            decreases 3 - s,
        {
            let who = source(s);
            let mut rep: u64 = 0;
            while rep < n
                invariant
                    forall|| call_requires(*draw_incubation, ()),
                    cycle_len == schedule@.cycle_len(),
                    n * cycle_len * 3 <= u64::MAX,
                    limit == u64::MAX - HORIZON - RECOVERY_DAYS - cycle_len,
                    day < cycle_len,
                    s < 3,
                    who == source_role(s as int),
                    rep <= n,
                    tally.wf(),
                    tally@.len() == (day * 3 + s) * n + rep,
                    cs.len() == (day * 3 + s) * n + rep,
                    forall|i: int|
                        0 <= i < cs.len() ==> (#[trigger] cs[i]).fit_until(cycle_len + HORIZON - 1),
                    tally@ == trials_tally(cs, n as nat, b_test, schedule@),
                decreases n - rep,
            {
                let a = match draw_course(draw_incubation, limit) {
                    Ok(course) => course,
                    Err(x) => return Err(x),
                };
                let hub = match draw_course(draw_incubation, limit) {
                    Ok(course) => course,
                    Err(x) => return Err(x),
                };
                let c = match draw_course(draw_incubation, limit) {
                    Ok(course) => course,
                    Err(x) => return Err(x),
                };
                let courses = Courses { a, hub, c };
                let outcome = run_trial(day, who, b_test, schedule, courses);
                proof {
                    let i = cs.len() as int;
                    let q = (day * 3 + s) as int;
                    assert(n > 0);
                    lemma_fundamental_div_mod_converse_div(i, n as int, q, rep as int);
                    lemma_fundamental_div_mod_converse_mod(q, 3, day as int, s as int);
                    assert(i == day * (3 * n) + (s * n + rep) && 0 <= s * n + rep < 3 * n) by (nonlinear_arith)
                        requires
                            i == (day * 3 + s) * n + rep,
                            s < 3,
                            rep < n,
                    ;
                    lemma_fundamental_div_mod_converse_div(i, 3 * n, day as int, (s * n + rep) as int);
                    assert(i / (3 * n as int) == day);
                    assert((i / n as int) % 3 == s);
                    assert(source_role((i / n as int) % 3) == who);
                    assert(cs.push(courses).drop_last() =~= cs);
                    cs = cs.push(courses);
                }
                proof {
                    assert((day * 3 + s) * n + rep < n * cycle_len * 3) by (nonlinear_arith)
                        requires
                            day < cycle_len,
                            s < 3,
                            rep < n,
                    ;
                }
                tally.record(outcome);
                rep = rep + 1;
            }
            proof {
                assert((day * 3 + s) * n + n == (day * 3 + s + 1) * n) by (nonlinear_arith);
            }
            s = s + 1;
        }
        proof {
            assert((day * 3 + 3) * n == (day + 1) * 3 * n) by (nonlinear_arith);
        }
        day = day + 1;
    }
    proof {
        assert(cycle_len * 3 * n == n * cycle_len * 3) by (nonlinear_arith);
    }
    Ok(tally)
}

/// A schedule as its segments `a`, `ac`, `c`, `ca` and its offset.
pub type Config = (u64, u64, u64, u64, u64);

/// Number of offsets tried for each swept schedule: one per day of the week.
pub const OFFSETS: u64 = 7;

/// Length of the cycle of the swept schedules.
pub const SWEEP_CYCLE: u64 = 28;

/// Most days of isolation in one cycle of a swept schedule.
pub const MAX_ISOLATION: u64 = 10;

/// Most days in one block of isolation: no more than a working week.
pub const MAX_BLOCK: u64 = 5;

/// Fewest days in a block of contact.
pub const MIN_CONTACT: u64 = 5;

/// A day of the weekend, counting day 0 as a Monday.
pub open spec fn is_weekend(day: int) -> bool {
    day % 7 == 5 || day % 7 == 6
}

/// A schedule is kept if it never isolates, by its segments, on a weekend day of
/// its first cycle, unless it isolates always.
pub open spec fn keeps_weekends(s: ScheduleView) -> bool {
    (s.a == 0 && s.c == 0) || forall|d: int|
        0 <= d < s.cycle_len() && is_weekend(d) ==> s.phase_at(d) != Phase::Isolate
}

/// Whether `schedule` either isolates always or never isolates on a weekend day
/// of its first cycle.
pub fn avoids_weekend_isolation(schedule: &Schedule) -> (r: bool)
    ensures
        r == keeps_weekends(schedule@),
{
    if schedule.always_isolating() {
        return true;
    }
    let cycle_len = schedule.cycle_len();
    let mut d: u64 = 0;
    while d < cycle_len
        invariant
            cycle_len == schedule@.cycle_len(),
            !(schedule@.a == 0 && schedule@.c == 0),
            d <= cycle_len,
            forall|j: int| 0 <= j < d && is_weekend(j) ==> schedule@.phase_at(j) != Phase::Isolate,
        decreases cycle_len - d,
    {
        if d % 7 == 5 || d % 7 == 6 {
            if schedule.phase_at(d) == Phase::Isolate {
                assert(is_weekend(d as int) && schedule@.phase_at(d as int) == Phase::Isolate);
                return false;
            }
        }
        d = d + 1;
    }
    true
}

/// The schedule `(a, ac, c, ca)` at offsets `0 .. k`.
pub open spec fn with_offsets(a: u64, ac: u64, c: u64, ca: u64, k: nat) -> Seq<Config> {
    Seq::new(k, |o: int| (a, ac, c, ca, o as u64))
}

/// The swept schedules with `p` days per block of contact and `tot` days of
/// isolation, of which the first block takes `0 .. k` days; no block of isolation
/// exceeds `MAX_BLOCK`.
pub open spec fn splits(p: u64, tot: u64, k: nat) -> Seq<Config>
    decreases k,
{
    if k == 0 {
        Seq::empty()
    } else {
        let ac = (k - 1) as u64;
        splits(p, tot, (k - 1) as nat) + if ac > MAX_BLOCK || tot - ac > MAX_BLOCK {
            Seq::empty()
        } else {
            with_offsets(p, ac, p, (tot - ac) as u64, OFFSETS as nat)
        }
    }
}

/// The swept schedules with `0, 2, .., 2 (k - 1)` days of isolation per cycle of
/// `SWEEP_CYCLE` days, the rest split evenly between A and C.
pub open spec fn sweep(k: nat) -> Seq<Config>
    decreases k,
{
    if k == 0 {
        Seq::empty()
    } else {
        let tot = 2 * (k - 1);
        let p = (SWEEP_CYCLE - tot) / 2;
        sweep((k - 1) as nat) + if p < MIN_CONTACT {
            Seq::empty()
        } else {
            splits(p as u64, tot as u64, (tot + 1) as nat)
        }
    }
}

/// The catalogue of schedules: daily alternation; 16 days each way with 5 of
/// isolation between, at every offset; A only; C only; isolation only; then the sweep.
pub open spec fn catalogue() -> Seq<Config> {
    seq![(1u64, 0u64, 1u64, 0u64, 0u64)] + with_offsets(16, 5, 16, 5, OFFSETS as nat) + seq![
        (14u64, 0u64, 0u64, 0u64, 0u64),
        (0u64, 0u64, 14u64, 0u64, 0u64),
        (0u64, SWEEP_CYCLE / 2, 0u64, SWEEP_CYCLE / 2, 0u64),
    ] + sweep((MAX_ISOLATION / 2 + 1) as nat)
}

fn push_offsets(phases: &mut Vec<Config>, a: u64, ac: u64, c: u64, ca: u64)
    ensures
        final(phases)@ == old(phases)@ + with_offsets(a, ac, c, ca, OFFSETS as nat),
{
    let ghost start = phases@;
    let mut o: u64 = 0;
    while o < OFFSETS
        invariant
            o <= OFFSETS,
            phases@ == start + with_offsets(a, ac, c, ca, o as nat),
        decreases OFFSETS - o,
    {
        phases.push((a, ac, c, ca, o));
        o = o + 1;
        assert(phases@ =~= start + with_offsets(a, ac, c, ca, o as nat));
    }
}

/// The schedules that an experiment tries, in order.
pub fn gen_phases() -> (r: Vec<Config>)
    ensures
        r@ == catalogue(),
{
    let mut phases: Vec<Config> = Vec::new();
    phases.push((1, 0, 1, 0, 0));
    push_offsets(&mut phases, 16, 5, 16, 5);
    phases.push((14, 0, 0, 0, 0));
    phases.push((0, 0, 14, 0, 0));
    phases.push((0, SWEEP_CYCLE / 2, 0, SWEEP_CYCLE / 2, 0));
    let ghost head = phases@;
    let mut k: u64 = 0;
    while k <= MAX_ISOLATION / 2
        invariant
            k <= MAX_ISOLATION / 2 + 1,
            phases@ == head + sweep(k as nat),
        decreases MAX_ISOLATION / 2 + 1 - k,
    {
        let tot = 2 * k;
        let p = (SWEEP_CYCLE - tot) / 2;
        let ghost before = phases@;
        if p >= MIN_CONTACT {
            let mut ac: u64 = 0;
            while ac <= tot
                invariant
                    tot == 2 * k,
                    tot <= MAX_ISOLATION,
                    ac <= tot + 1,
                    phases@ == before + splits(p, tot, ac as nat),
                decreases tot + 1 - ac,
            {
                if ac <= MAX_BLOCK && tot - ac <= MAX_BLOCK {
                    push_offsets(&mut phases, p, ac, p, tot - ac);
                }
                ac = ac + 1;
                assert(phases@ =~= before + splits(p, tot, ac as nat));
            }
        }
        k = k + 1;
        assert(phases@ =~= head + sweep(k as nat));
    }
    assert(phases@ =~= catalogue());
    phases
}

} // verus!

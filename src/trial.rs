use crate::draw::Course;
use crate::person::{fits, interaction, Person, PersonView};
use crate::schedule::{Phase, Schedule, ScheduleView};
use vstd::prelude::*;

verus! {

/// Days a trial may last: it ends before this day at the latest.
pub const HORIZON: u64 = 300;

/// Days from A's routine test to its result.
pub const ROUTINE_TEST_DELAY: u64 = 1;

/// Days from the hub's test to its result.
pub const HUB_TEST_DELAY: u64 = 2;

/// Who carries the infection that a trial starts with.
#[derive(Clone, Copy, Debug, PartialEq, Eq, Structural)]
pub enum Role {
    /// The person the hub sees in phase A.
    A,
    /// The person who sees A and C in turn.
    Hub,
    /// The person the hub sees in phase C.
    C,
}

/// The course that each person's infection takes in a trial, should they be
/// infected.
#[derive(Clone, Copy, Debug, PartialEq, Eq, Structural)]
pub struct Courses {
    pub a: Course,
    pub hub: Course,
    pub c: Course,
}

impl Courses {
    /// Every infection that starts on or before `day` has dates that fit in a `u64`.
    pub open spec fn fit_until(self, day: int) -> bool {
        &&& fits(day, self.a)
        &&& fits(day, self.hub)
        &&& fits(day, self.c)
    }
}

/// The three people of a trial.
pub struct TrialView {
    pub a: PersonView,
    pub b: PersonView,
    pub c: PersonView,
}

/// The three people at the start of a trial: `who` was exposed on `moment`.
pub open spec fn seeded(moment: int, who: Role, courses: Courses) -> TrialView {
    let h = PersonView::healthy(Seq::empty());
    match who {
        Role::A => TrialView { a: h.exposed(moment, courses.a), b: h, c: h },
        Role::Hub => TrialView { a: h, b: h.exposed(moment, courses.hub), c: h },
        Role::C => TrialView { a: h, b: h, c: h.exposed(moment, courses.c) },
    }
}

/// A trial ends on the first day on which someone isolates or everyone has recovered.
pub open spec fn trial_stops(t: TrialView, day: int) -> bool {
    ||| t.a.is_isolating(day)
    ||| t.b.is_isolating(day)
    ||| t.c.is_isolating(day)
    ||| (t.a.has_recovered(day) && t.b.has_recovered(day) && t.c.has_recovered(day))
}

/// A is tested twice a week.
pub open spec fn routine_test_day(day: int) -> bool {
    day % 7 == 1 || day % 7 == 4
}

/// The hub is tested on day `k` of each cycle, if `b_test` is `Some(k)`.
pub open spec fn hub_test_day(day: int, b_test: Option<u64>, s: ScheduleView) -> bool {
    match b_test {
        Some(k) => day % (s.cycle_len() as int) == k,
        None => false,
    }
}

/// One day of a trial that goes on: the tests, then the contact that the schedule
/// gives. A contact can infect only the one of its two people who is not infected
/// yet, with that person's course.
pub open spec fn trial_step(t: TrialView, day: int, b_test: Option<u64>, s: ScheduleView, courses: Courses) -> TrialView {
    let a1 = if routine_test_day(day) {
        t.a.tested(day, ROUTINE_TEST_DELAY as int)
    } else {
        t.a
    };
    let b1 = if hub_test_day(day, b_test, s) {
        t.b.tested(day, HUB_TEST_DELAY as int)
    } else {
        t.b
    };
    match s.phase_at(day) {
        Phase::A => {
            let course = if a1.is_infected() {
                courses.hub
            } else {
                courses.a
            };
            let (b2, a2) = interaction(b1, a1, day, course);
            TrialView { a: a2, b: b2, c: t.c }
        },
        Phase::C => {
            let course = if t.c.is_infected() {
                courses.hub
            } else {
                courses.c
            };
            let (b2, c2) = interaction(b1, t.c, day, course);
            TrialView { a: a1, b: b2, c: c2 }
        },
        Phase::Isolate => TrialView { a: a1, b: b1, c: t.c },
    }
}

/// The trial from `day` on: the people and the last day reached.
pub open spec fn trial_run(t: TrialView, day: int, b_test: Option<u64>, s: ScheduleView, courses: Courses) -> (
    TrialView,
    int,
)
    decreases HORIZON - day,
{
    if day >= HORIZON {
        (t, HORIZON - 1)
    } else if trial_stops(t, day) {
        (t, day)
    } else {
        trial_run(trial_step(t, day, b_test, s, courses), day + 1, b_test, s, courses)
    }
}

/// The days of contagion that went unnoticed, summed over the three people, and
/// how many were infected, both as of `day`.
pub open spec fn tally_of(t: TrialView, day: int) -> (int, int) {
    (
        t.a.days_unaware(day) + t.b.days_unaware(day) + t.c.days_unaware(day),
        (if t.a.was_sick(day) { 1int } else { 0 }) + (if t.b.was_sick(day) { 1int } else { 0 }) + (
        if t.c.was_sick(day) {
            1int
        } else {
            0
        }),
    )
}

/// The outcome of a trial that starts on `moment` with `who` infected; one that
/// starts on or after the horizon is measured on day 0.
pub open spec fn trial_outcome(moment: int, who: Role, b_test: Option<u64>, s: ScheduleView, courses: Courses) -> (
    int,
    int,
) {
    let t0 = seeded(moment, who, courses);
    if moment < HORIZON {
        let (t, last) = trial_run(t0, moment, b_test, s, courses);
        tally_of(t, last)
    } else {
        tally_of(t0, 0)
    }
}

pub open spec fn view3(a: Person, b: Person, c: Person) -> TrialView {
    TrialView { a: a@, b: b@, c: c@ }
}

/// Runs a single trial: `who` is infected on `moment`, and each day, until someone
/// isolates, everyone has recovered or the horizon is reached, A is tested on
/// its routine days, the hub on day `b_test` of each cycle, and the hub meets A
/// or C as `schedule` says. Returns the days of contagion that went unnoticed and
/// the number of people infected.
pub fn run_trial(moment: u64, who: Role, b_test: Option<u64>, schedule: &Schedule, courses: Courses) -> (r: (
    u64,
    u64,
))
    requires
        courses.fit_until(moment as int),
        courses.fit_until(HORIZON as int),
    ensures
        (r.0 as int, r.1 as int) == trial_outcome(moment as int, who, b_test, schedule@, courses),
{
    let mut a = Person::new(String::new());
    let mut b = Person::new(String::new());
    let mut c = Person::new(String::new());
    match who {
        Role::A => a.expose(moment, courses.a),
        Role::Hub => b.expose(moment, courses.hub),
        Role::C => c.expose(moment, courses.c),
    }
    let ghost t0 = view3(a, b, c);
    let ghost s = schedule@;
    let cycle_len = schedule.cycle_len();
    let mut max_day: u64 = 0;
    let mut day: u64 = moment;
    while day < HORIZON
        invariant_except_break
            moment < HORIZON ==> trial_run(view3(a, b, c), day as int, b_test, s, courses) == trial_run(
                t0,
                moment as int,
                b_test,
                s,
                courses,
            ),
            day > moment ==> max_day == day - 1,
        invariant
            a.inv(),
            b.inv(),
            c.inv(),
            s == schedule@,
            cycle_len == s.cycle_len(),
            cycle_len > 0,
            courses.fit_until(HORIZON as int),
            moment <= day <= HORIZON || (moment >= HORIZON && day == moment),
            max_day < HORIZON,
            moment >= HORIZON ==> view3(a, b, c) == t0 && max_day == 0,
        ensures
            moment < HORIZON ==> trial_run(t0, moment as int, b_test, s, courses) == (
                view3(a, b, c),
                max_day as int,
            ),
            moment >= HORIZON ==> view3(a, b, c) == t0 && max_day == 0,
        decreases HORIZON - day,
    {
        max_day = day;
        if a.is_isolating(day) || b.is_isolating(day) || c.is_isolating(day) {
            break;
        }
        if a.has_recovered(day) && b.has_recovered(day) && c.has_recovered(day) {
            break;
        }
        let ghost cur = view3(a, b, c);
        if day % 7 == 1 || day % 7 == 4 {
            a.test(day, ROUTINE_TEST_DELAY);
        }
        match b_test {
            Some(k) => {
                if day % cycle_len == k {
                    b.test(day, HUB_TEST_DELAY);
                }
            },
            None => {},
        }
        match schedule.phase_at(day) {
            Phase::A => {
                let course = if a.get_infection().is_some() {
                    courses.hub
                } else {
                    courses.a
                };
                b.interact(day, &mut a, course);
            },
            Phase::C => {
                let course = if c.get_infection().is_some() {
                    courses.hub
                } else {
                    courses.c
                };
                b.interact(day, &mut c, course);
            },
            Phase::Isolate => {},
        }
        assert(view3(a, b, c) == trial_step(cur, day as int, b_test, s, courses));
        day = day + 1;
    }
    proof {
        lemma_days_unaware_bounded(a@, max_day as int);
        lemma_days_unaware_bounded(b@, max_day as int);
        lemma_days_unaware_bounded(c@, max_day as int);
    }
    let unaware = a.days_unaware(max_day) + b.days_unaware(max_day) + c.days_unaware(max_day);
    let sick = (if a.was_sick(max_day) {
        1u64
    } else {
        0
    }) + (if b.was_sick(max_day) {
        1u64
    } else {
        0
    }) + (if c.was_sick(max_day) {
        1u64
    } else {
        0
    });
    (unaware, sick)
}

/// Nobody is unaware of more days than have passed.
proof fn lemma_days_unaware_bounded(p: PersonView, day: int)
    requires
        p.wf(),
        day >= 0,
    ensures
        0 <= p.days_unaware(day) <= day,
{
}

} // verus!

use vstd::arithmetic::div_mod::{lemma_add_mod_noop, lemma_mod_sub_multiples_vanish, lemma_small_mod};
use vstd::prelude::*;

verus! {

/// Phase type
#[derive(Clone, Copy, Debug, PartialEq, Eq, Structural)]
pub enum Phase {
    /// B sees A
    A,
    /// B is isolating
    Isolate,
    /// B sees C
    C,
}

/// The segment lengths of a contact cycle and its offset, as mathematical integers.
pub struct ScheduleView {
    pub a: nat,
    pub ac: nat,
    pub c: nat,
    pub ca: nat,
    pub offset: nat,
}

/// The phase on day `k` of a cycle made of `a` days with A, `ac` days of
/// isolation, `c` days with C, and isolation for the rest.
pub open spec fn phase_in_cycle(a: int, ac: int, c: int, k: int) -> Phase {
    if k < a {
        Phase::A
    } else if k < a + ac {
        Phase::Isolate
    } else if k < a + ac + c {
        Phase::C
    } else {
        Phase::Isolate
    }
}

impl ScheduleView {
    pub open spec fn cycle_len(self) -> nat {
        self.a + self.ac + self.c + self.ca
    }

    /// Day `day` falls on day `(day + offset) % cycle_len` of the cycle.
    pub open spec fn phase_at(self, day: int) -> Phase {
        phase_in_cycle(self.a as int, self.ac as int, self.c as int, (day + self.offset) % (self.cycle_len() as int))
    }
}

/// A contact schedule: A for `a` days, isolation for `ac` days, C for `c` days,
/// isolation for `ca` days, repeated, with day 0 on day `offset` of the cycle.
#[derive(Clone, Copy, Debug)]
pub struct Schedule {
    a: u64,
    ac: u64,
    c: u64,
    ca: u64,
    offset: u64,
}

impl View for Schedule {
    type V = ScheduleView;

    closed spec fn view(&self) -> ScheduleView {
        ScheduleView {
            a: self.a as nat,
            ac: self.ac as nat,
            c: self.c as nat,
            ca: self.ca as nat,
            offset: self.offset as nat,
        }
    }
}

impl Schedule {
    #[verifier::type_invariant]
    spec fn inv(self) -> bool {
        &&& self.a + self.ac + self.c + self.ca > 0
        &&& self.a + self.ac + self.c + self.ca <= u64::MAX
    }

    /// Number of days in one cycle.
    pub fn cycle_len(&self) -> (r: u64)
        ensures
            r == self@.cycle_len(),
            r > 0,
    {
        proof {
            use_type_invariant(self);
        }
        self.a + self.ac + self.c + self.ca
    }

    /// Whether the hub never sees anyone: no days with A and none with C.
    pub fn always_isolating(&self) -> (r: bool)
        ensures
            r == (self@.a == 0 && self@.c == 0),
    {
        self.a == 0 && self.c == 0
    }

    /// The phase of day `day`.
    pub fn phase_at(&self, day: u64) -> (r: Phase)
        ensures
            r == self@.phase_at(day as int),
    {
        let len = self.cycle_len();
        let k = day % len;
        let o = self.offset % len;
        let cycle_day = if k >= len - o {
            k - (len - o)
        } else {
            k + o
        };
        proof {
            let m = len as int;
            lemma_add_mod_noop(day as int, self.offset as int, m);
            if k >= len - o {
                lemma_mod_sub_multiples_vanish((k + o) as int, m);
                lemma_small_mod((k + o - len) as nat, len as nat);
            } else {
                lemma_small_mod((k + o) as nat, len as nat);
            }
        }
        if cycle_day < self.a {
            Phase::A
        } else if cycle_day < self.a + self.ac {
            Phase::Isolate
        } else if cycle_day < self.a + self.ac + self.c {
            Phase::C
        } else {
            Phase::Isolate
        }
    }
}

/// The schedule with segments `a`, `ac`, `c`, `ca` and offset `offset`; the
/// cycle may not be empty.
pub fn gen_phase_fn(a: u64, ac: u64, c: u64, ca: u64, offset: u64) -> (r: Schedule)
    requires
        a + ac + c + ca > 0,
        a + ac + c + ca <= u64::MAX,
    ensures
        r@ == (ScheduleView { a: a as nat, ac: ac as nat, c: c as nat, ca: ca as nat, offset: offset as nat }),
{
    Schedule { a, ac, c, ca, offset }
}

/// The phases of the example schedule: 16 days with A, 5 of isolation, 16 with C,
/// 5 of isolation.
pub open spec fn example_phase(day: int) -> Phase {
    phase_in_cycle(16, 5, 16, day % 42)
}

/// An example phase function
pub fn phase(day: u64) -> (r: Phase)
    ensures
        r == example_phase(day as int),
{
    let cycle_day = day % (6 * 7);
    if cycle_day <= 15 {
        Phase::A
    } else if cycle_day >= 21 && cycle_day <= 36 {
        Phase::C
    } else {
        Phase::Isolate
    }
}

/// The example phase function is the schedule with segments 16, 5, 16, 5 and
/// no offset.
pub proof fn lemma_example_is_generated(day: int)
    requires
        day >= 0,
    ensures
        example_phase(day) == (ScheduleView { a: 16, ac: 5, c: 16, ca: 5, offset: 0 }).phase_at(day),
{
}

} // verus!

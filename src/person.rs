use crate::draw::Course;
use vstd::prelude::*;

verus! {

/// Days of contagion before the symptoms would show.
pub const CONTAGIOUS_LEAD: u64 = 2;

/// Days from the (possibly unseen) onset of symptoms to the last contagious day.
pub const RECOVERY_DAYS: u64 = 10;

/// The dates of an infection, as mathematical integers.
pub struct InfectionView {
    pub onset: int,
    pub testable: int,
    pub contagious: int,
    pub recovery: int,
    pub symptomatic: Option<int>,
}

/// A person: the name, the infection, if any, and the day a positive test
/// result becomes known, if any.
pub struct PersonView {
    pub name: Seq<char>,
    pub infection: Option<InfectionView>,
    pub result: Option<int>,
}

/// Days from exposure to the (possibly unseen) onset of symptoms. A drawn
/// incubation of 0 days counts as one day: contagion never starts before the
/// day after exposure, and symptoms never show before contagion.
pub open spec fn incubation_days(course: Course) -> int {
    if course.incubation == 0 {
        1
    } else {
        course.incubation as int
    }
}

/// The day on which symptoms would show, whether or not they do.
pub open spec fn reference_date(date: int, course: Course) -> int {
    date + incubation_days(course)
}

/// The first contagious (and testable) day: `CONTAGIOUS_LEAD` days before the
/// reference date, but never before the day after exposure.
pub open spec fn contagious_from(date: int, course: Course) -> int {
    let lead = reference_date(date, course) - CONTAGIOUS_LEAD;
    if lead >= date + 1 {
        lead
    } else {
        date + 1
    }
}

/// The infection that exposure on `date` starts when it takes `course`.
pub open spec fn infection_from(date: int, course: Course) -> InfectionView {
    InfectionView {
        onset: date,
        testable: contagious_from(date, course),
        contagious: contagious_from(date, course),
        recovery: reference_date(date, course) + RECOVERY_DAYS,
        symptomatic: if course.symptomatic {
            Some(reference_date(date, course))
        } else {
            None
        },
    }
}

/// Whether every date of the infection that exposure on `date` starts fits in a `u64`.
pub open spec fn fits(date: int, course: Course) -> bool {
    reference_date(date, course) + RECOVERY_DAYS <= u64::MAX
}

impl InfectionView {
    /// The relations that every infection keeps between its dates.
    pub open spec fn wf(self) -> bool {
        &&& self.testable == self.contagious
        &&& self.contagious >= self.onset + 1
        &&& self.recovery >= self.contagious
        &&& (self.symptomatic is Some ==> self.symptomatic->Some_0 >= self.contagious)
        &&& self.onset >= 0
        &&& self.recovery <= u64::MAX
    }
}

impl PersonView {
    /// A person who has never been infected nor tested positive.
    pub open spec fn healthy(name: Seq<char>) -> PersonView {
        PersonView { name, infection: None, result: None }
    }

    pub open spec fn is_infected(self) -> bool {
        self.infection is Some
    }

    pub open spec fn is_contagious(self, date: int) -> bool {
        match self.infection {
            Some(i) => i.contagious <= date && date <= i.recovery,
            None => false,
        }
    }

    pub open spec fn is_isolating(self, date: int) -> bool {
        (match self.result {
            Some(r) => r <= date,
            None => false,
        }) || (match self.infection {
            Some(i) => match i.symptomatic {
                Some(s) => s <= date,
                None => false,
            },
            None => false,
        })
    }

    pub open spec fn has_recovered(self, date: int) -> bool {
        match self.infection {
            Some(i) => date > i.recovery,
            None => true,
        }
    }

    pub open spec fn days_unaware(self, date: int) -> int {
        match self.infection {
            Some(i) => {
                let end = if i.recovery <= date {
                    i.recovery
                } else {
                    date
                };
                if end > i.contagious {
                    end - i.contagious
                } else {
                    0
                }
            },
            None => 0,
        }
    }

    pub open spec fn was_sick(self, date: int) -> bool {
        match self.infection {
            Some(i) => i.onset <= date,
            None => false,
        }
    }

    /// Exposure on `date`: a first exposure starts the infection that `course`
    /// gives; a later one changes nothing.
    pub open spec fn exposed(self, date: int, course: Course) -> PersonView {
        if self.is_infected() {
            self
        } else {
            PersonView { infection: Some(infection_from(date, course)), ..self }
        }
    }

    /// A test on `date` whose result is known `delay` days later; it finds
    /// nothing before the infection is testable.
    pub open spec fn tested(self, date: int, delay: int) -> PersonView {
        match self.infection {
            Some(i) => if i.testable <= date {
                PersonView { result: Some(date + delay), ..self }
            } else {
                self
            },
            None => self,
        }
    }

    pub open spec fn wf(self) -> bool {
        match self.infection {
            Some(i) => i.wf(),
            None => true,
        }
    }
}

/// A contact on `date` between `p` and `q`: first `q` may infect `p`, then `p`
/// may infect `q`. A new infection takes `course`.
pub open spec fn interaction(p: PersonView, q: PersonView, date: int, course: Course) -> (
    PersonView,
    PersonView,
) {
    let p_next = if q.is_contagious(date) {
        p.exposed(date, course)
    } else {
        p
    };
    let q_next = if p_next.is_contagious(date) {
        q.exposed(date, course)
    } else {
        q
    };
    (p_next, q_next)
}

pub open spec fn infection_view(o: Option<Infection>) -> Option<InfectionView> {
    match o {
        Some(i) => Some(i@),
        None => None,
    }
}

/// Infection data
#[derive(Clone, Copy, Debug)]
pub struct Infection {
    date: u64,
    testable_date: u64,
    contagious_date: u64,
    recovery_date: u64,
    symptomatic_date: Option<u64>,
}

impl View for Infection {
    type V = InfectionView;

    closed spec fn view(&self) -> InfectionView {
        InfectionView {
            onset: self.date as int,
            testable: self.testable_date as int,
            contagious: self.contagious_date as int,
            recovery: self.recovery_date as int,
            symptomatic: match self.symptomatic_date {
                Some(s) => Some(s as int),
                None => None,
            },
        }
    }
}

impl Infection {
    /// The infection that exposure on `date` starts when it takes `course`.
    pub fn from_course(date: u64, course: Course) -> (r: Infection)
        requires
            fits(date as int, course),
        ensures
            r@ == infection_from(date as int, course),
            r@.wf(),
    {
        let incubation = if course.incubation == 0 {
            1
        } else {
            course.incubation
        };
        let reference = date + incubation;
        let contagious = if reference >= date + 1 + CONTAGIOUS_LEAD {
            reference - CONTAGIOUS_LEAD
        } else {
            date + 1
        };
        Infection {
            date,
            testable_date: contagious,
            contagious_date: contagious,
            recovery_date: reference + RECOVERY_DAYS,
            symptomatic_date: if course.symptomatic {
                Some(reference)
            } else {
                None
            },
        }
    }

    /// Day of exposure.
    pub fn date(&self) -> (r: u64)
        ensures
            r == self@.onset,
    {
        self.date
    }

    /// First day on which a test finds the infection.
    pub fn testable_date(&self) -> (r: u64)
        ensures
            r == self@.testable,
    {
        self.testable_date
    }

    /// First day on which the infection can pass on.
    pub fn contagious_date(&self) -> (r: u64)
        ensures
            r == self@.contagious,
    {
        self.contagious_date
    }

    /// Last day on which the infection can pass on.
    pub fn recovery_date(&self) -> (r: u64)
        ensures
            r == self@.recovery,
    {
        self.recovery_date
    }

    /// Day on which symptoms show, if they do.
    pub fn symptomatic_date(&self) -> (r: Option<u64>)
        ensures
            match r {
                Some(s) => self@.symptomatic == Some(s as int),
                None => self@.symptomatic is None,
            },
    {
        self.symptomatic_date
    }
}

/// Struct representing an individual and keeping track of associated state
#[derive(Debug)]
pub struct Person {
    /// Person's name for easy referencing
    pub name: String,
    infection: Option<Infection>,
    tested_positive: Option<u64>,
}

impl View for Person {
    type V = PersonView;

    closed spec fn view(&self) -> PersonView {
        PersonView {
            name: self.name@,
            infection: infection_view(self.infection),
            result: match self.tested_positive {
                Some(t) => Some(t as int),
                None => None,
            },
        }
    }
}

impl Person {
    /// Every infection a person carries keeps the relations between its dates.
    pub open spec fn inv(&self) -> bool {
        self@.wf()
    }

    /// Creates a new person
    pub fn new(name: String) -> (r: Person)
        ensures
            r@ == PersonView::healthy(name@),
            r.inv(),
    {
        Person { name, infection: None, tested_positive: None }
    }

    /// Exposes a person, on `date`, to an infection that would take `course`;
    /// one who was ever infected is immune.
    pub fn expose(&mut self, date: u64, course: Course)
        requires
            old(self).inv(),
            !old(self)@.is_infected() ==> fits(date as int, course),
        ensures
            final(self)@ == old(self)@.exposed(date as int, course),
            final(self).inv(),
    {
        if self.infection.is_some() {
            return ;
        }
        self.infection = Some(Infection::from_course(date, course));
    }

    /// True if the infection is done/has never happened
    pub fn has_recovered(&mut self, date: u64) -> (r: bool)
        ensures
            *final(self) == *old(self),
            r == old(self)@.has_recovered(date as int),
    {
        match &self.infection {
            Some(infection) => date > infection.recovery_date,
            None => true,
        }
    }

    /// Runs a test on `date`; a positive result becomes known `delay` days later.
    pub fn test(&mut self, date: u64, delay: u64)
        requires
            old(self).inv(),
            old(self)@.is_infected() && old(self)@.infection->Some_0.testable <= date ==> date + delay
                <= u64::MAX,
        ensures
            final(self)@ == old(self)@.tested(date as int, delay as int),
            final(self).inv(),
    {
        match &self.infection {
            Some(infection) => {
                if infection.testable_date <= date {
                    self.tested_positive = Some(date + delay);
                }
            },
            None => {},
        }
    }

    /// A contact on `date`: first `other` may infect `self`, then `self` may
    /// infect `other`. An infection it starts takes `course`.
    pub fn interact(&mut self, date: u64, other: &mut Self, course: Course)
        requires
            old(self).inv(),
            old(other).inv(),
            fits(date as int, course),
        ensures
            (final(self)@, final(other)@) == interaction(old(self)@, old(other)@, date as int, course),
            final(self).inv(),
            final(other).inv(),
    {
        if other.is_contagious(date) {
            self.expose(date, course);
        }
        if self.is_contagious(date) {
            other.expose(date, course);
        }
    }

    /// Is this person able to infect others?
    pub fn is_contagious(&self, date: u64) -> (r: bool)
        ensures
            r == self@.is_contagious(date as int),
    {
        match &self.infection {
            Some(infection) => infection.contagious_date <= date && date <= infection.recovery_date,
            None => false,
        }
    }

    /// Is this person in a state where they should be isolating?
    pub fn is_isolating(&self, date: u64) -> (r: bool)
        ensures
            r == self@.is_isolating(date as int),
    {
        if let Some(tested_date) = self.tested_positive {
            if tested_date <= date {
                return true;
            }
        }
        if let Some(infection) = &self.infection {
            if let Some(symptomatic_date) = infection.symptomatic_date {
                return symptomatic_date <= date;
            }
        }
        false
    }

    /// Returns a reference to the current infection status
    pub fn get_infection(&self) -> (r: &Option<Infection>)
        ensures
            infection_view(*r) == self@.infection,
    {
        &self.infection
    }

    /// Returns the number of days that this person was carrying the virus unaware
    pub fn days_unaware(&self, date: u64) -> (r: u64)
        ensures
            r == self@.days_unaware(date as int),
    {
        match &self.infection {
            Some(infection) => {
                let end = if infection.recovery_date <= date {
                    infection.recovery_date
                } else {
                    date
                };
                if end > infection.contagious_date {
                    end - infection.contagious_date
                } else {
                    0
                }
            },
            None => 0,
        }
    }

    /// Has this person been infected on or before `date`?
    pub fn was_sick(&self, date: u64) -> (r: bool)
        ensures
            r == self@.was_sick(date as int),
    {
        match &self.infection {
            Some(infection) => infection.date <= date,
            None => false,
        }
    }
}

/// The day from which a person isolates: the earlier of the day symptoms show
/// and the day a positive result is known, of those that exist.
pub open spec fn isolation_start(p: PersonView) -> Option<int> {
    let symptoms = match p.infection {
        Some(i) => i.symptomatic,
        None => None,
    };
    match (symptoms, p.result) {
        (Some(s), Some(r)) => Some(if s <= r { s } else { r }),
        (Some(s), None) => Some(s),
        (None, Some(r)) => Some(r),
        (None, None) => None,
    }
}

/// Every infection keeps its dates in order: exposure, then contagion and
/// testability together, then symptoms if they show, then recovery.
pub proof fn lemma_infection_dates(date: int, course: Course)
    requires
        date >= 0,
        fits(date, course),
    ensures
        infection_from(date, course).wf(),
        infection_from(date, course).contagious <= reference_date(date, course) < infection_from(
            date,
            course,
        ).recovery,
{
}

/// A person was sick on `d` exactly when infected with an onset no later than `d`:
/// never before the onset, always from it on.
pub proof fn lemma_causality(p: PersonView, d: int)
    ensures
        p.was_sick(d) <==> (p.infection is Some && p.infection->Some_0.onset <= d),
        p.infection is Some ==> (p.was_sick(d) <==> d >= p.infection->Some_0.onset),
{
}

/// A person is contagious exactly on the days from the contagious date to the
/// recovery date, both included: never before the onset, never after recovery.
pub proof fn lemma_contagious_window(p: PersonView, d: int)
    requires
        p.wf(),
    ensures
        p.is_contagious(d) <==> (p.infection is Some && p.infection->Some_0.contagious <= d
            <= p.infection->Some_0.recovery),
        p.infection is Some && d < p.infection->Some_0.onset ==> !p.is_contagious(d),
        p.infection is Some && d > p.infection->Some_0.recovery ==> !p.is_contagious(d),
{
}

/// A second exposure leaves the infection of the first as it was.
pub proof fn lemma_immunity(p: PersonView, d1: int, c1: Course, d2: int, c2: Course)
    ensures
        p.exposed(d1, c1).exposed(d2, c2) == p.exposed(d1, c1),
        p.exposed(d1, c1).infection is Some,
{
}

/// A test before the testable date sets no result; one on or after it sets the
/// result date to the test date plus the delay.
pub proof fn lemma_test_timing(p: PersonView, d: int, delay: int)
    requires
        p.infection is Some,
    ensures
        d < p.infection->Some_0.testable ==> p.tested(d, delay) == p,
        d >= p.infection->Some_0.testable ==> p.tested(d, delay).result == Some(d + delay)
            && p.tested(d, delay).infection == p.infection,
{
}

/// A person isolates exactly from the earlier of the symptom date and the result
/// date, of those that exist, and from then on for good.
pub proof fn lemma_isolation_trigger(p: PersonView, d1: int, d2: int)
    ensures
        p.is_isolating(d1) <==> (isolation_start(p) is Some && isolation_start(p)->Some_0 <= d1),
        p.is_isolating(d1) && d1 <= d2 ==> p.is_isolating(d2),
{
}

/// One contact infects at most one of its two people, and never both ways: a
/// person infected by it is not yet contagious on that day.
pub proof fn lemma_one_infection_per_contact(p: PersonView, q: PersonView, date: int, course: Course)
    requires
        p.wf(),
        q.wf(),
    ensures
        !(!p.is_infected() && interaction(p, q, date, course).0.is_infected() && !q.is_infected()
            && interaction(p, q, date, course).1.is_infected()),
        !p.is_infected() && interaction(p, q, date, course).0.is_infected() ==> !interaction(
            p,
            q,
            date,
            course,
        ).0.is_contagious(date),
{
}

} // verus!

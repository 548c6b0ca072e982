//! A model of contagion among three people who meet on a cyclic schedule.
//!
//! Each person carries at most one infection, whose dates follow from the day of
//! exposure and a randomly drawn course. Trials run three people day by day under a
//! contact schedule; experiments repeat trials and tally their outcomes.

mod draw;
mod experiment;
mod person;
mod schedule;
mod tally;
mod trial;

pub use draw::{
    Course, INCUBATION_LOG_MEAN_HUNDREDTHS, INCUBATION_LOG_SD_HUNDREDTHS,
    SYMPTOMATIC_DENOMINATOR, SYMPTOMATIC_NUMERATOR,
};
pub use person::{
    infection_from, interaction, isolation_start, lemma_causality, lemma_contagious_window,
    lemma_immunity, lemma_infection_dates, lemma_isolation_trigger, lemma_one_infection_per_contact, lemma_test_timing,
    Infection, InfectionView, Person, PersonView, CONTAGIOUS_LEAD, RECOVERY_DAYS,
};
pub use schedule::{example_phase, gen_phase_fn, lemma_example_is_generated, phase, phase_in_cycle, Phase, Schedule, ScheduleView};
pub use trial::{run_trial, trial_outcome, Courses, Role, TrialView, HORIZON, HUB_TEST_DELAY, ROUTINE_TEST_DELAY};
pub use tally::{Outcome, Tally};
pub use experiment::{
    avoids_weekend_isolation, catalogue, gen_phases, keeps_weekends, nth_trial, run_n, trials_tally, Config,
};

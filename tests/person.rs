use rand_distr::{Distribution, LogNormal};
use rustagious::{
    Course, Person, INCUBATION_LOG_MEAN_HUNDREDTHS, INCUBATION_LOG_SD_HUNDREDTHS,
};
use std::collections::HashMap;

/// Draws a course as an experiment does: a log-normal incubation, rounded to days.
fn draw() -> Course {
    let mu = INCUBATION_LOG_MEAN_HUNDREDTHS as f64 / 100.0;
    let sigma = INCUBATION_LOG_SD_HUNDREDTHS as f64 / 100.0;
    let log_normal = LogNormal::new(mu, sigma).unwrap();
    let days = log_normal.sample(&mut rand::thread_rng()).round() as u64;
    Course::draw(days)
}

fn symptomatic(incubation: u64) -> Course {
    Course { incubation, symptomatic: true }
}

fn asymptomatic(incubation: u64) -> Course {
    Course { incubation, symptomatic: false }
}

#[test]
fn single_infected_tested_isolating() {
    let mut me = Person::new("Olivia".to_string());
    assert_eq!(me.name, "Olivia".to_string());

    // Get sick, with symptoms on day 7
    me.expose(2, symptomatic(5));

    // Don't know better yet, should *not* be isolating...
    assert!(!me.is_isolating(2));
    assert!(me.was_sick(4)); // ...but am sick (hidden state)

    // Get tested, no delay
    me.test(12, 0);

    // Really should be isolating
    assert!(me.is_isolating(12));
    assert!(me.was_sick(12));
}

#[test]
fn interaction_abc_future() {
    let mut a = Person::new("Olivia A".to_string());
    let mut b = Person::new("Olivia B".to_string());
    let mut c = Person::new("Olivia C".to_string());
    assert!(!a.was_sick(0));
    assert!(!b.was_sick(0));
    assert!(!c.was_sick(0));

    b.expose(10, asymptomatic(5));
    assert!(b.was_sick(10));

    // Nobody's sick, but out of order
    b.interact(1, &mut a, asymptomatic(5));
    assert!(!a.was_sick(1));
    assert!(!b.was_sick(1));
    assert!(!c.was_sick(1));

    // Interact
    b.interact(19, &mut c, asymptomatic(5));
    assert!(!a.was_sick(19));
    assert!(b.was_sick(19));
    assert!(c.was_sick(19));
}

#[test]
fn interaction() {
    let mut healthy_me = Person::new("Olivia Healthy".to_string());
    let mut sick_me = Person::new("Olivia Sick".to_string());
    assert!(!healthy_me.was_sick(0));
    assert!(!sick_me.was_sick(0));

    sick_me.expose(0, asymptomatic(5));
    assert!(sick_me.was_sick(2));

    sick_me.interact(10, &mut healthy_me, asymptomatic(5));
    assert!(sick_me.was_sick(11));
    assert!(healthy_me.was_sick(11));
}

#[test]
fn infectious_causality() {
    for _ in 0..5000 {
        let mut me = Person::new("Olivia".to_string());
        me.expose(100, draw());
        me.test(100, 0);
        assert!(!me.was_sick(99));
        assert!(!me.is_isolating(100));
    }
}

#[test]
fn delay_testing() {
    for _ in 0..5_000 {
        let mut me = Person::new("Olivia".to_string());
        me.expose(100, draw());

        let infection = me.get_infection().unwrap();
        let t = infection.testable_date();

        if let Some(s) = infection.symptomatic_date() {
            me.test(t, 5);
            assert!(t <= s);

            // no symptoms, or test result
            for d in t..s {
                assert!(!me.is_isolating(d));
            }

            // should be isolating when we have symptoms
            assert!(me.is_isolating(s));

            // should be isolating when we get results back
            assert!(me.is_isolating(t + 5));
        } else {
            // testing is too early
            me.test(t - 1, 2);
            assert!(!me.is_isolating(t + 1));

            me.test(t, 5);
            assert!(!me.is_isolating(t));
            assert!(!me.is_isolating(t + 1));
            assert!(!me.is_isolating(t + 2));
            assert!(!me.is_isolating(t + 3));
            assert!(!me.is_isolating(t + 4));
            assert!(me.is_isolating(t + 5));
        }
    }
}

#[test]
fn symptomatic_distribution_quantiles() {
    let mut sympt_dist: HashMap<u64, u64> = HashMap::new();
    let mut n_tot = 0;

    // Get 10k samples where symptoms are shown
    while n_tot < 10_000 {
        let mut me = Person::new("Olivia".to_string());
        me.expose(100, draw());

        let infection = me.get_infection().unwrap();

        if let Some(s) = infection.symptomatic_date() {
            n_tot += 1;
            let incubation_days = s - 100;
            let cur = sympt_dist.get(&incubation_days).copied().unwrap_or(0) + 1;
            sympt_dist.insert(incubation_days, cur);
        }
    }

    let mut cum_dist = Vec::new();
    let mut prev = 0;
    for d in 0..100 {
        let n = sympt_dist.get(&d).copied().unwrap_or(0);
        cum_dist.push((prev + n) as f64 / (n_tot as f64));
        prev += n;
    }
    assert!(prev == n_tot, "Expected prev {} == n_tot {}", prev, n_tot);

    let percentiles: Vec<(f64, f64)> = vec![
        (02.5, 1.92),
        (05., 2.24),
        (10., 2.69),
        (25., 3.64),
        (50., 5.10),
        (75., 7.15),
        (90., 9.69),
        (95., 11.60),
        (97.5, 13.60),
    ];

    for (p, expected) in percentiles {
        let above = expected.round() as usize;
        let below = above - 1;
        assert!(
            cum_dist[below] < (p / 100.) + 0.01,
            "Expected cum_dist[{}] {:.3} to be <{}",
            below,
            cum_dist[below],
            p / 100.
        );
        assert!(
            cum_dist[above] > (p / 100.) - 0.01,
            "Expected cum_dist[{}] {:.3} to be >{}",
            below,
            cum_dist[below],
            p / 100.
        );
    }
}

#[test]
fn infection_dates_from_course() {
    let mut me = Person::new("Dates".to_string());
    me.expose(10, symptomatic(5));
    let i = me.get_infection().unwrap();
    assert_eq!(i.date(), 10);
    assert_eq!(i.testable_date(), 13);
    assert_eq!(i.contagious_date(), 13);
    assert_eq!(i.recovery_date(), 25);
    assert_eq!(i.symptomatic_date(), Some(15));
}

#[test]
fn contagious_date_clamped_after_exposure() {
    // a 0-day incubation counts as one day
    let mut early = Person::new("Early".to_string());
    early.expose(0, symptomatic(0));
    let i = early.get_infection().unwrap();
    assert_eq!(i.contagious_date(), 1);
    assert_eq!(i.testable_date(), 1);
    assert_eq!(i.recovery_date(), 11);
    assert_eq!(i.symptomatic_date(), Some(1));

    let mut short = Person::new("Short".to_string());
    short.expose(10, asymptomatic(1));
    let i = short.get_infection().unwrap();
    assert_eq!(i.contagious_date(), 11);
    assert_eq!(i.recovery_date(), 21);
    assert_eq!(i.symptomatic_date(), None);
}

#[test]
fn causality_on_onset() {
    let mut me = Person::new("Onset".to_string());
    assert!(!me.was_sick(1000));
    me.expose(20, draw());
    assert!(!me.was_sick(19));
    assert!(me.was_sick(20));
    assert!(me.was_sick(500));
}

#[test]
fn contagious_window_closed_both_ends() {
    let mut me = Person::new("Window".to_string());
    assert!(!me.is_contagious(5));
    me.expose(10, asymptomatic(6));
    // contagious from 14, recovered after 26
    assert!(!me.is_contagious(9));
    assert!(!me.is_contagious(13));
    assert!(me.is_contagious(14));
    assert!(me.is_contagious(26));
    assert!(!me.is_contagious(27));
    assert!(!me.has_recovered(26));
    assert!(me.has_recovered(27));
    assert!(Person::new("Never".to_string()).has_recovered(0));
}

#[test]
fn second_exposure_changes_nothing() {
    let mut me = Person::new("Immune".to_string());
    me.expose(3, symptomatic(4));
    let first = *me.get_infection();
    me.expose(8, asymptomatic(9));
    let second = *me.get_infection();
    let (f, s) = (first.unwrap(), second.unwrap());
    assert_eq!(f.date(), s.date());
    assert_eq!(f.testable_date(), s.testable_date());
    assert_eq!(f.contagious_date(), s.contagious_date());
    assert_eq!(f.recovery_date(), s.recovery_date());
    assert_eq!(f.symptomatic_date(), s.symptomatic_date());
}

#[test]
fn test_before_testable_date_finds_nothing() {
    let mut me = Person::new("Tested".to_string());
    me.test(0, 0);
    assert!(!me.is_isolating(100));
    me.expose(10, asymptomatic(6));
    // testable from 14
    me.test(13, 0);
    assert!(!me.is_isolating(100));
    me.test(14, 3);
    assert!(!me.is_isolating(16));
    assert!(me.is_isolating(17));
}

#[test]
fn isolation_starts_at_earlier_signal() {
    // symptoms on 15, result known on 20
    let mut me = Person::new("Signals".to_string());
    me.expose(10, symptomatic(5));
    me.test(13, 7);
    assert!(!me.is_isolating(14));
    assert!(me.is_isolating(15));
    assert!(me.is_isolating(20));
    assert!(me.is_isolating(1000));

    // result known on 14, symptoms on 15
    let mut other = Person::new("Result first".to_string());
    other.expose(10, symptomatic(5));
    other.test(13, 1);
    assert!(!other.is_isolating(13));
    assert!(other.is_isolating(14));
    assert!(other.is_isolating(15));
}

#[test]
fn days_unaware_counts_contagious_days() {
    let mut me = Person::new("Unaware".to_string());
    assert_eq!(me.days_unaware(50), 0);
    me.expose(10, asymptomatic(6));
    // contagious 14 ..= 26
    assert_eq!(me.days_unaware(12), 0);
    assert_eq!(me.days_unaware(14), 0);
    assert_eq!(me.days_unaware(20), 6);
    assert_eq!(me.days_unaware(26), 12);
    assert_eq!(me.days_unaware(100), 12);
}

#[test]
fn contact_infects_one_way_only() {
    let mut sick = Person::new("Sick".to_string());
    let mut well = Person::new("Well".to_string());
    sick.expose(0, asymptomatic(6));
    // sick is contagious from 4: the contact on 4 infects well, who cannot pass it back
    well.interact(4, &mut sick, asymptomatic(3));
    assert!(well.was_sick(4));
    assert!(!well.is_contagious(4));
    assert_eq!(well.get_infection().unwrap().date(), 4);
    assert_eq!(sick.get_infection().unwrap().date(), 0);
}

#[test]
fn drawn_courses_keep_incubation_and_vary() {
    let mut shown = 0;
    for _ in 0..2000 {
        let c = Course::draw(7);
        assert_eq!(c.incubation, 7);
        if c.symptomatic {
            shown += 1;
        }
    }
    assert!(shown > 1000 && shown < 1400, "{} of 2000 showed symptoms", shown);
}

#[test]
fn no_symptoms_on_exposure_day() {
    let mut me = Person::new("Zero".to_string());
    me.expose(2, symptomatic(0));
    assert!(!me.is_isolating(2));
    assert!(me.is_isolating(3));
    let i = me.get_infection().unwrap();
    assert!(i.symptomatic_date().unwrap() >= i.contagious_date());
    assert!(i.testable_date() <= i.symptomatic_date().unwrap());
}

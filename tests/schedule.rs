use rustagious::{gen_phase_fn, phase, Phase};

#[test]
fn phase_test() {
    assert_eq!(phase(0), Phase::A, "0 with A");
    assert_eq!(phase(1), Phase::A, "1 with A");
    assert_eq!(phase(15), Phase::A, "15 with A");

    assert_eq!(phase(16), Phase::Isolate, "16 isolating");
    assert_eq!(phase(17), Phase::Isolate, "17 isolating");
    assert_eq!(phase(18), Phase::Isolate, "18 isolating");
    assert_eq!(phase(19), Phase::Isolate, "19 isolating");
    assert_eq!(phase(20), Phase::Isolate, "20 isolating");

    assert_eq!(phase(21), Phase::C, "21 C");
    assert_eq!(phase(30), Phase::C, "30 C");
    assert_eq!(phase(36), Phase::C, "36 C");

    assert_eq!(phase(37), Phase::Isolate, "37 isolating");
    assert_eq!(phase(38), Phase::Isolate, "38 isolating");
    assert_eq!(phase(39), Phase::Isolate, "39 isolating");
    assert_eq!(phase(40), Phase::Isolate, "40 isolating");
    assert_eq!(phase(41), Phase::Isolate, "41 isolating");

    assert_eq!(phase(42), Phase::A, "42 with A");
}

#[test]
fn gen_phase_fn_test() {
    let phase_fn = gen_phase_fn(16, 5, 16, 5, 0);
    for day in 0..100 {
        assert_eq!(
            phase_fn.phase_at(day),
            phase(day),
            "Day {}: gen says {:?}, should be {:?}",
            day,
            phase_fn.phase_at(day),
            phase(day),
        );
    }
}

#[test]
fn gen_phase_fn_test_hardcoded() {
    let alt_fn = gen_phase_fn(1, 0, 1, 0, 0);
    for day in 0..100 {
        if day % 2 == 0 {
            assert_eq!(
                alt_fn.phase_at(day),
                Phase::A,
                "Day {}: gen says {:?} should be {:?}",
                day,
                alt_fn.phase_at(day),
                Phase::A
            );
        } else {
            assert_eq!(
                alt_fn.phase_at(day),
                Phase::C,
                "Day {}: gen says {:?} should be {:?}",
                day,
                alt_fn.phase_at(day),
                Phase::C
            );
        }
    }

    let none_fn_1 = gen_phase_fn(0, 12, 0, 0, 0);
    let none_fn_2 = gen_phase_fn(0, 0, 0, 1, 0);
    let none_fn_3 = gen_phase_fn(0, 2, 0, 6, 0);
    for day in 0..100 {
        assert_eq!(
            none_fn_1.phase_at(day),
            Phase::Isolate,
            "Day {}: gen_1 {:?} should be isolated",
            day,
            alt_fn.phase_at(day),
        );
        assert_eq!(
            none_fn_2.phase_at(day),
            Phase::Isolate,
            "Day {}: gen_2 {:?} should be isolated",
            day,
            alt_fn.phase_at(day),
        );
        assert_eq!(
            none_fn_3.phase_at(day),
            Phase::Isolate,
            "Day {}: gen_3 {:?} should be isolated",
            day,
            alt_fn.phase_at(day),
        );
    }

    let always_a = gen_phase_fn(5, 0, 0, 0, 0);
    let always_c = gen_phase_fn(0, 0, 9, 0, 0);
    for day in 0..100 {
        assert_eq!(always_a.phase_at(day), Phase::A);
        assert_eq!(always_c.phase_at(day), Phase::C);
    }
}

#[test]
fn offset_shifts_the_cycle() {
    let s = gen_phase_fn(16, 5, 16, 5, 3);
    assert_eq!(s.cycle_len(), 42);
    assert_eq!(s.phase_at(0), Phase::A);
    assert_eq!(s.phase_at(12), Phase::A);
    assert_eq!(s.phase_at(13), Phase::Isolate);
    assert_eq!(s.phase_at(18), Phase::C);
    assert_eq!(s.phase_at(34), Phase::Isolate);
    assert_eq!(s.phase_at(39), Phase::A);
}

#[test]
fn phase_at_largest_day_and_offset() {
    let s = gen_phase_fn(1, 0, 1, 0, u64::MAX);
    // (u64::MAX + u64::MAX) % 2 == 0
    assert_eq!(s.phase_at(u64::MAX), Phase::A);
    assert_eq!(s.phase_at(0), Phase::C);
    let big = gen_phase_fn(u64::MAX - 1, 0, 1, 0, 0);
    assert_eq!(big.phase_at(u64::MAX - 2), Phase::A);
    assert_eq!(big.phase_at(u64::MAX - 1), Phase::C);
    assert_eq!(big.phase_at(u64::MAX), Phase::A);
}

#[test]
fn always_isolating_schedules() {
    assert!(gen_phase_fn(0, 12, 0, 0, 0).always_isolating());
    assert!(!gen_phase_fn(1, 0, 1, 0, 0).always_isolating());
    assert!(!gen_phase_fn(0, 0, 9, 0, 0).always_isolating());
}

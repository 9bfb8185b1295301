use reversible_walk::die::{DeterministicDie, DIE_FACES};
use reversible_walk::state::State;
use reversible_walk::transition::Transition;

const SEED: u64 = 0x5eed_1234_abcd_0042;

#[test]
fn roll_is_deterministic_and_in_range() {
    let die = State::uniform_rolls(SEED);
    for t in -20..20 {
        let a = die.roll(t);
        let b = die.roll(t);
        assert_eq!(a, b);
        assert!(0 <= a && a < DIE_FACES);
    }
    let again = DeterministicDie { seed: SEED };
    assert_eq!(again.roll(7), die.roll(7));
    assert_eq!(die.roll(i32::MIN), die.roll(i32::MIN));
    assert_eq!(die.roll(i32::MAX), die.roll(i32::MAX));
}

#[test]
fn rolls_vary_with_time_and_seed() {
    let die = State::uniform_rolls(SEED);
    let other = State::uniform_rolls(SEED ^ 1);
    let first: Vec<i32> = (0..64).map(|t| die.roll(t)).collect();
    let second: Vec<i32> = (0..64).map(|t| other.roll(t)).collect();
    assert!(first.iter().any(|&d| d != first[0]));
    assert_ne!(first, second);
}

#[test]
fn transitions_compute_their_values() {
    assert_eq!(Transition::idle(), Transition::Idle);
    assert_eq!(Transition::random_step(), Transition::RandomStep);
    assert_eq!(Transition::record(9), Transition::Record(9));
    assert_eq!(Transition::idle().evolve_forward(3, 4), 3);
    assert_eq!(Transition::idle().evolve_backward(3, 4), 3);
    assert_eq!(Transition::random_step().evolve_forward(3, 4), 7);
    assert_eq!(Transition::random_step().evolve_backward(3, 4), -1);
    assert_eq!(Transition::record(10).evolve_forward(3, 4), 13);
    assert_eq!(Transition::record(10).evolve_backward(3, 4), -7);
    assert_eq!(Transition::random_step().evolve_forward(i32::MAX, 1), i32::MIN);
}

#[test]
fn transitions_invert() {
    let ms = [i32::MIN, -1000, -1, 0, 1, 17, i32::MAX - 3, i32::MAX];
    let trs = [
        Transition::idle(),
        Transition::random_step(),
        Transition::record(0),
        Transition::record(-55),
        Transition::record(i32::MAX),
    ];
    for tr in trs.iter() {
        for &m in ms.iter() {
            for d in 0..DIE_FACES {
                assert_eq!(tr.evolve_backward(tr.evolve_forward(m, d), d), m);
                assert_eq!(tr.evolve_forward(tr.evolve_backward(m, d), d), m);
            }
        }
    }
}

#[test]
fn new_state_is_empty() {
    let s = State::new(4);
    assert_eq!(s.time_index(), 0);
    assert_eq!(s.macrostate(), 4);
    assert!(s.past_dice().is_empty());
    assert!(s.future_dice().is_empty());
}

#[test]
fn forward_step_rolls_the_die_at_the_current_index() {
    let mut s = State::from_seed(0, SEED);
    let die = s.die();
    assert_eq!(die.seed, SEED);
    s.step_forward(&Transition::random_step());
    assert_eq!(s.time_index(), 1);
    assert_eq!(s.past_dice(), &vec![die.roll(0)]);
    assert!(s.future_dice().is_empty());
    assert_eq!(s.macrostate(), die.roll(0));
}

#[test]
fn scenario_forward_then_backward_ten_steps() {
    let mut s = State::from_seed(0, SEED);
    let die = s.die();
    for _ in 0..10 {
        s.step_forward(&Transition::random_step());
    }
    let recorded: Vec<i32> = s.past_dice().clone();
    assert_eq!(recorded.len(), 10);
    let expected: Vec<i32> = (0..10).map(|t| die.roll(t)).collect();
    assert_eq!(recorded, expected);
    assert_eq!(s.macrostate(), recorded.iter().sum::<i32>());
    assert_eq!(s.time_index(), 10);
    for k in 0..10 {
        s.step_backward(&Transition::random_step());
        let popped = *s.future_dice().last().unwrap();
        assert_eq!(popped, recorded[9 - k]);
    }
    assert_eq!(s.macrostate(), 0);
    assert_eq!(s.time_index(), 0);
    assert!(s.past_dice().is_empty());
    let reversed: Vec<i32> = recorded.iter().rev().cloned().collect();
    assert_eq!(s.future_dice(), &reversed);
}

#[test]
fn scenario_walk_and_memory() {
    let mut walk = State::from_seed(0, SEED);
    let mut memory = State::from_seed(0, SEED ^ 0xffff);
    let mut walk_at_five = 0;
    for t in 0..10 {
        if t == 5 {
            walk_at_five = walk.macrostate();
            memory.step_forward(&Transition::record(walk.macrostate()));
        } else {
            walk.step_forward(&Transition::random_step());
        }
    }
    assert_eq!(memory.macrostate(), walk_at_five);
    assert_eq!(walk.time_index(), 9);
    assert_eq!(memory.time_index(), 1);
    let walk_die = walk.die();
    let first_five: i32 = (0..5).map(|t| walk_die.roll(t)).sum();
    assert_eq!(walk_at_five, first_five);
    assert_ne!(walk.macrostate(), walk_at_five + 1000);
    for t in (0..10).rev() {
        if t == 5 {
            memory.step_backward(&Transition::record(walk.macrostate()));
        } else {
            walk.step_backward(&Transition::random_step());
        }
    }
    assert_eq!(walk.macrostate(), 0);
    assert_eq!(memory.macrostate(), 0);
    assert_eq!(walk.time_index(), 0);
    assert_eq!(memory.time_index(), 0);
}

#[test]
fn backward_past_origin_rolls_negative_indices() {
    let mut a = State::from_seed(0, SEED);
    let mut b = State::from_seed(0, SEED);
    let die = a.die();
    for _ in 0..3 {
        a.step_backward(&Transition::random_step());
        b.step_backward(&Transition::random_step());
    }
    assert_eq!(a.time_index(), -3);
    assert_eq!(a.future_dice(), &vec![die.roll(-1), die.roll(-2), die.roll(-3)]);
    assert_eq!(a.macrostate(), -(die.roll(-1) + die.roll(-2) + die.roll(-3)));
    assert_eq!(a.future_dice(), b.future_dice());
    assert_eq!(a.macrostate(), b.macrostate());
    assert!(a.past_dice().is_empty());
}

#[test]
fn forward_replays_dice_found_going_backward() {
    let mut s = State::from_seed(0, SEED);
    let die = s.die();
    s.step_backward(&Transition::random_step());
    s.step_backward(&Transition::random_step());
    s.step_forward(&Transition::random_step());
    assert_eq!(s.time_index(), -1);
    assert_eq!(s.past_dice(), &vec![die.roll(-2)]);
    assert_eq!(s.future_dice(), &vec![die.roll(-1)]);
    s.step_forward(&Transition::random_step());
    s.step_forward(&Transition::random_step());
    assert_eq!(s.time_index(), 1);
    assert_eq!(s.past_dice(), &vec![die.roll(-2), die.roll(-1), die.roll(0)]);
    assert!(s.future_dice().is_empty());
    assert_eq!(s.macrostate(), die.roll(0));
}

#[test]
fn histories_cover_each_crossed_index_once() {
    let mut s = State::from_seed(0, SEED);
    for _ in 0..3 {
        s.step_backward(&Transition::idle());
    }
    for _ in 0..5 {
        s.step_forward(&Transition::idle());
    }
    s.step_backward(&Transition::idle());
    // crossed: -3..2, five indices
    assert_eq!(s.time_index(), 1);
    assert_eq!(s.past_dice().len(), 4);
    assert_eq!(s.future_dice().len(), 1);
    let die = s.die();
    let past: Vec<i32> = (-3..1).map(|t| die.roll(t)).collect();
    assert_eq!(s.past_dice(), &past);
    assert_eq!(s.future_dice(), &vec![die.roll(1)]);
}

#[test]
fn round_trip_restores_a_replayed_interval() {
    let mut s = State::from_seed(7, SEED);
    let trs = [
        Transition::random_step(),
        Transition::record(-40),
        Transition::idle(),
        Transition::random_step(),
    ];
    for _ in 0..6 {
        s.step_backward(&Transition::random_step());
    }
    let t0 = s.time_index();
    let m0 = s.macrostate();
    let past0 = s.past_dice().clone();
    let future0 = s.future_dice().clone();
    for tr in trs.iter() {
        s.step_forward(tr);
    }
    for tr in trs.iter().rev() {
        s.step_backward(tr);
    }
    assert_eq!(s.time_index(), t0);
    assert_eq!(s.macrostate(), m0);
    assert_eq!(s.past_dice(), &past0);
    assert_eq!(s.future_dice(), &future0);
}

#[test]
fn peturbed_copies_time_and_macrostate() {
    let mut s = State::from_seed(2, SEED);
    s.step_forward(&Transition::random_step());
    s.step_forward(&Transition::random_step());
    let p = State::peturbed_from_seed(&s, 99);
    assert_eq!(p.time_index(), 2);
    assert_eq!(p.macrostate(), s.macrostate());
    assert!(p.past_dice().is_empty());
    assert!(p.future_dice().is_empty());
    assert_eq!(p.die().seed, 99);
    let q = State::peturbed(&s);
    assert_eq!(q.time_index(), 2);
    assert_eq!(q.macrostate(), s.macrostate());
    assert!(q.past_dice().is_empty());
}

#[test]
fn render_shows_the_tape() {
    let mut s = State::from_seed(5, SEED);
    assert_eq!(s.render(), "State at t=0: ... (5) ...");
    let die = s.die();
    s.step_forward(&Transition::idle());
    assert_eq!(s.render(), format!("State at t=1: ... {} (5) ...", die.roll(0)));
    s.step_backward(&Transition::idle());
    s.step_backward(&Transition::record(-12));
    assert_eq!(
        s.render(),
        format!("State at t=-1: ... (17) {} {} ...", die.roll(-1), die.roll(0))
    );
    s.step_forward(&Transition::record(-12));
    s.step_forward(&Transition::record(100));
    assert_eq!(
        s.render(),
        format!("State at t=1: ... {} {} (105) ...", die.roll(-1), die.roll(0))
    );
}

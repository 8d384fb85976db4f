use egloorator::pairing::{Action, Egloorator, SilenceChange};

fn on(who: usize) -> SilenceChange {
    SilenceChange { who, silent: false }
}

fn off(who: usize) -> SilenceChange {
    SilenceChange { who, silent: true }
}

/// Symmetric, no self-pairs, and the waiting voice is not paired.
fn well_formed(eg: &Egloorator) -> bool {
    let pairs = eg.pairs();
    let symmetric = pairs
        .iter()
        .all(|(a, b)| a != b && pairs.get(b) == Some(a));
    let waiting_is_free = match eg.single() {
        Some(s) => !pairs.contains_key(&s),
        None => true,
    };
    symmetric && waiting_is_free
}

#[test]
fn test_sanity() {
    let silence = vec![true; 6];
    let mut eg = Egloorator::new(silence);
    println!("\n{:?}", eg);
    assert_eq!(eg.pairs().keys().len(), 0);

    println!("0 talks");
    let actions = eg.input(&SilenceChange { who: 0, silent: false });
    println!("{:?}", eg);
    assert_eq!(actions, vec![]);
    println!("1 talks");
    let actions = eg.input(&SilenceChange { who: 1, silent: false });
    println!("{:?}", eg);
    assert_eq!(actions, vec![Action::Connect(1, 0)]);
    println!("1 stops");
    let actions = eg.input(&SilenceChange { who: 1, silent: true });
    println!("{:?}", eg);
    assert_eq!(actions, vec![Action::Disconnect(1, 0)]);
    println!("1 talks");
    let actions = eg.input(&SilenceChange { who: 1, silent: false });
    println!("{:?}", eg);
    assert_eq!(actions, vec![Action::Connect(1, 0)]);
}

#[test]
fn six_silent_voices_pair_and_part() {
    let mut eg = Egloorator::new(vec![true; 6]);
    assert_eq!(eg.single(), None);
    assert!(eg.pairs().is_empty());

    assert_eq!(eg.input(&on(0)), vec![]);
    assert_eq!(eg.single(), Some(0));
    assert!(eg.pairs().is_empty());

    assert_eq!(eg.input(&on(1)), vec![Action::Connect(1, 0)]);
    assert_eq!(eg.single(), None);
    assert_eq!(eg.pairs().len(), 2);
    assert_eq!(eg.pairs().get(&0), Some(&1));
    assert_eq!(eg.pairs().get(&1), Some(&0));

    assert_eq!(eg.input(&off(1)), vec![Action::Disconnect(1, 0)]);
    assert!(eg.pairs().is_empty());
    assert_eq!(eg.single(), Some(0));

    assert_eq!(eg.input(&on(1)), vec![Action::Connect(1, 0)]);
    assert_eq!(eg.single(), None);
    assert_eq!(eg.pairs().get(&0), Some(&1));
    assert_eq!(eg.pairs().get(&1), Some(&0));
}

#[test]
fn third_voice_waits_while_two_are_paired() {
    let mut eg = Egloorator::new(vec![true; 3]);
    assert_eq!(eg.input(&on(0)), vec![]);
    assert_eq!(eg.input(&on(1)), vec![Action::Connect(1, 0)]);
    assert_eq!(eg.input(&on(2)), vec![]);
    assert_eq!(eg.single(), Some(2));
    assert_eq!(eg.pairs().len(), 2);
    assert_eq!(eg.pairs().get(&0), Some(&1));
    assert_eq!(eg.pairs().get(&1), Some(&0));
    assert!(well_formed(&eg));

    // one of the pair falls silent: its partner is the one that waits now
    assert_eq!(eg.input(&off(0)), vec![Action::Disconnect(0, 1)]);
    assert_eq!(eg.single(), Some(1));
    assert!(eg.pairs().is_empty());
}

#[test]
fn active_twice_is_a_noop() {
    let mut eg = Egloorator::new(vec![true; 4]);
    assert_eq!(eg.input(&on(2)), vec![]);
    assert_eq!(eg.input(&on(2)), vec![]);
    assert_eq!(eg.single(), Some(2));
    assert!(eg.pairs().is_empty());
}

#[test]
fn paired_voice_active_again_is_a_noop() {
    let mut eg = Egloorator::new(vec![true; 4]);
    eg.input(&on(0));
    eg.input(&on(1));
    // nobody waits
    assert_eq!(eg.input(&on(0)), vec![]);
    assert_eq!(eg.single(), None);
    assert_eq!(eg.pairs().len(), 2);
    // somebody waits
    assert_eq!(eg.input(&on(2)), vec![]);
    assert_eq!(eg.input(&on(1)), vec![]);
    assert_eq!(eg.single(), Some(2));
    assert_eq!(eg.pairs().len(), 2);
    assert_eq!(eg.pairs().get(&0), Some(&1));
    assert_eq!(eg.pairs().get(&1), Some(&0));
    assert!(well_formed(&eg));
}

#[test]
fn silent_twice_is_a_noop() {
    let mut eg = Egloorator::new(vec![true; 4]);
    assert_eq!(eg.input(&off(3)), vec![]);
    assert_eq!(eg.single(), None);
    eg.input(&on(3));
    assert_eq!(eg.input(&off(3)), vec![]);
    assert_eq!(eg.single(), None);
    assert_eq!(eg.input(&off(3)), vec![]);
    assert_eq!(eg.single(), None);
    assert!(eg.pairs().is_empty());
}

#[test]
fn input_on_and_input_off_are_the_two_halves_of_input() {
    let mut eg = Egloorator::new(vec![true; 4]);
    assert_eq!(eg.input_on(3), vec![]);
    assert_eq!(eg.input_on(1), vec![Action::Connect(1, 3)]);
    assert_eq!(eg.pairs().get(&3), Some(&1));
    assert_eq!(eg.input_off(3), vec![Action::Disconnect(3, 1)]);
    assert_eq!(eg.single(), Some(1));
    assert_eq!(eg.input_off(1), vec![]);
    assert_eq!(eg.single(), None);
    assert_eq!(eg.input_off(2), vec![]);
    assert!(eg.pairs().is_empty());
}

#[test]
fn round_trip_from_either_side() {
    for leaver in [4usize, 5usize] {
        let stayer = if leaver == 4 { 5 } else { 4 };
        let mut eg = Egloorator::new(vec![true; 6]);
        eg.input(&on(0));
        eg.input(&on(1));
        eg.input(&on(5));
        assert_eq!(eg.input(&on(4)), vec![Action::Connect(4, 5)]);
        assert_eq!(
            eg.input(&off(leaver)),
            vec![Action::Disconnect(leaver, stayer)]
        );
        assert!(!eg.pairs().contains_key(&4));
        assert!(!eg.pairs().contains_key(&5));
        assert_eq!(eg.single(), Some(stayer));
        // the other pair is untouched
        assert_eq!(eg.pairs().len(), 2);
        assert_eq!(eg.pairs().get(&0), Some(&1));
        assert_eq!(eg.pairs().get(&1), Some(&0));
    }
}

#[test]
fn seeded_with_active_voices() {
    let eg = Egloorator::new(vec![false, true, false, false, true, false, false]);
    // 0 waits, 2 joins it; 3 waits, 5 joins it; 6 waits
    assert_eq!(eg.single(), Some(6));
    assert_eq!(eg.pairs().len(), 4);
    assert_eq!(eg.pairs().get(&0), Some(&2));
    assert_eq!(eg.pairs().get(&2), Some(&0));
    assert_eq!(eg.pairs().get(&3), Some(&5));
    assert_eq!(eg.pairs().get(&5), Some(&3));
    assert!(well_formed(&eg));

    let nobody = Egloorator::new(vec![]);
    assert_eq!(nobody.single(), None);
    assert!(nobody.pairs().is_empty());
}

#[test]
fn every_state_on_the_way_is_well_formed() {
    let mut eg = Egloorator::new(vec![true, false, true, false, false]);
    assert!(well_formed(&eg));
    // a fixed walk through every kind of change, repeated ones included
    let walk: [(usize, bool); 24] = [
        (0, false), (0, false), (1, true), (2, false), (4, true), (3, true), (0, true),
        (2, true), (2, true), (1, false), (3, false), (4, false), (0, false), (1, false),
        (4, true), (3, true), (1, true), (1, false), (0, true), (2, false), (2, true),
        (1, true), (3, true), (4, true),
    ];
    for (who, silent) in walk {
        let change = SilenceChange { who, silent };
        let actions = eg.input(&change);
        assert!(actions.len() <= 1);
        assert!(well_formed(&eg));
        // repeating the change makes no difference
        let single = eg.single();
        let pairs = eg.pairs().clone();
        assert_eq!(eg.input(&change), vec![]);
        assert_eq!(eg.single(), single);
        assert_eq!(eg.pairs(), &pairs);
    }
}

#[test]
fn dissolving_a_pair_replaces_the_voice_that_waited() {
    let mut eg = Egloorator::new(vec![true; 4]);
    eg.input(&on(0));
    eg.input(&on(1));
    eg.input(&on(2));
    assert_eq!(eg.single(), Some(2));
    assert_eq!(eg.input(&off(1)), vec![Action::Disconnect(1, 0)]);
    assert_eq!(eg.single(), Some(0));
    // 3 pairs with the survivor
    assert_eq!(eg.input(&on(3)), vec![Action::Connect(3, 0)]);
    assert_eq!(eg.pairs().get(&0), Some(&3));
    assert_eq!(eg.pairs().get(&3), Some(&0));
}

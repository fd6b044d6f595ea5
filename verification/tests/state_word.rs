use streamcatcher::{FinaliseState, RopeAndState};

#[test]
fn state_upgrade() {
    const INIT_USERS: usize =
        0b0000_0000_0000_0000_0000_0000_0000_0000_0000_0010_0000_0100_0000_0000_0000_0011;

    const UPGRADE_1: usize =
        0b0100_0000_0000_0000_0000_0000_0000_0000_0000_0010_0000_0100_0000_0000_0000_0011;
    const UPGRADE_2: usize =
        0b1000_0000_0000_0000_0000_0000_0000_0000_0000_0010_0000_0100_0000_0000_0000_0011;

    let u1 = INIT_USERS.upgrade_state();
    let u2 = u1.upgrade_state();

    assert_eq!(u1, UPGRADE_1);
    assert_eq!(u2, UPGRADE_2);

    assert_eq!(INIT_USERS.state(), FinaliseState::Live);
    assert_eq!(u1.state(), FinaliseState::Finalising);
    assert_eq!(u2.state(), FinaliseState::Finalised);

    assert_eq!(INIT_USERS.holders().0, INIT_USERS);
    assert_eq!(u1.holders().0, INIT_USERS);
    assert_eq!(u2.holders().0, INIT_USERS);
}

#[test]
fn state_numbers_round_trip() {
    for s in [FinaliseState::Live, FinaliseState::Finalising, FinaliseState::Finalised] {
        let n: usize = s.into();
        assert_eq!(FinaliseState::from_bits(n), s);
        assert_eq!(s.to_bits(), n);
    }
    assert_eq!(usize::from(FinaliseState::Finalised), 2);
}

#[test]
fn state_predicates() {
    assert!(FinaliseState::Live.is_source_live());
    assert!(!FinaliseState::Live.is_source_finished());
    assert!(FinaliseState::Finalising.is_source_finished());
    assert!(!FinaliseState::Finalising.is_backing_ready());
    assert!(FinaliseState::Finalised.is_backing_ready());
    assert!(FinaliseState::Finalised.is_source_finished());
}

#[test]
fn holders_survive_upgrades() {
    let word: usize = 5;
    assert_eq!(word.holders().0, 5);
    let up = word.upgrade_state().upgrade_state();
    assert_eq!(up.holders().0, 5);
    assert_eq!(up.state(), FinaliseState::Finalised);
}

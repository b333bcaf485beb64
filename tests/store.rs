use std::collections::HashMap;

use polkafoundry_staking::bond::{AccountId, Balance, Bond, UnBondChunk, UnlockChunk};
use polkafoundry_staking::collator::StakerStatus;
use polkafoundry_staking::pallet::{Config, CurrencyOp, Error, GenesisConfig, Pallet, Releases};

fn config() -> Config {
    Config {
        blocks_per_round: 10,
        max_collators_per_nominator: 2,
        max_nominations_per_collator: 2,
        bond_duration: 2,
        min_collator_stake: 100,
        min_nominator_stake: 10,
        vesting_after: 2,
        desired_targets: 7,
    }
}

/// A store with collators 1 and 2 active, each with 500 bonded.
fn two_collators() -> Pallet {
    let mut p = Pallet::new(config());
    p.bond(1, 500).unwrap();
    p.bond(2, 500).unwrap();
    p.on_finalize(10).unwrap();
    p
}

fn pairs(v: &[Bond]) -> Vec<(u64, u128)> {
    v.iter().map(|b| (b.owner, b.amount)).collect()
}

/// Reserved balances, as the currency ledger would hold them after `ops`.
fn apply(reserved: &mut HashMap<AccountId, i128>, ops: &[CurrencyOp]) {
    for op in ops {
        match op {
            CurrencyOp::Reserve(w, a) => *reserved.entry(*w).or_insert(0) += *a as i128,
            CurrencyOp::Unreserve(w, a) => *reserved.entry(*w).or_insert(0) -= *a as i128,
        }
    }
}

/// Stake the store accounts for, each amount counted once.
fn staked(p: &Pallet) -> i128 {
    let mut sum: i128 = 0;
    for (_, c) in &p.collator_entries {
        let backed: Balance = c.nominations.iter().map(|b| b.amount).sum();
        sum += (c.total - backed) as i128;
    }
    for (_, n) in &p.nominator_entries {
        sum += n.total as i128;
    }
    for (_, e) in &p.exit_entries {
        sum += e.remaining as i128 + e.unbonding.iter().map(|c| c.value as i128).sum::<i128>();
    }
    sum
}

#[test]
fn new_store_starts_at_round_one() {
    let p = Pallet::new(config());
    assert_eq!(p.current_round().index, 1);
    assert_eq!(p.current_round().start_in, 0);
    assert_eq!(p.current_round().length, 10);
    assert_eq!(p.storage_version(), Releases::V1_0_0);
    assert_eq!(p.desired_targets(), 7);
    assert!(p.collators(1).is_none());
    assert!(p.nominators(1).is_none());
    assert!(p.exit_queue(1).is_none());
}

#[test]
fn bond_errors() {
    let mut p = Pallet::new(config());
    assert_eq!(p.bond(1, 99), Err(Error::BondBelowMin));
    assert!(p.collators(1).is_none());
    p.bond(1, 100).unwrap();
    assert_eq!(p.bond(1, 500), Err(Error::AlreadyBonded));
    assert_eq!(p.collators(1).unwrap().total, 100);
}

#[test]
fn bond_extra_errors_and_success() {
    let mut p = Pallet::new(config());
    assert_eq!(p.bond_extra(1, 10), Err(Error::BondNotExist));
    p.bond(1, 500).unwrap();
    assert_eq!(p.bond_extra(1, 10), Err(Error::CandidateNotActive));
    p.on_finalize(10).unwrap();
    assert_eq!(p.bond_extra(1, u128::MAX), Err(Error::Overflow));
    assert_eq!(p.bond_extra(1, 10), Ok(vec![CurrencyOp::Reserve(1, 10)]));
    let c = p.collators(1).unwrap();
    assert_eq!(c.total, 510);
    assert_eq!(c.active, 500);
    assert_eq!(c.unlocking, vec![UnlockChunk { value: 10, round: 3 }]);
}

#[test]
fn bond_less_errors_and_success() {
    let mut p = Pallet::new(config());
    assert_eq!(p.bond_less(1, 10), Err(Error::BondNotExist));
    p.bond(1, 500).unwrap();
    assert_eq!(p.bond_less(1, 10), Err(Error::CandidateNotActive));
    p.on_finalize(10).unwrap();
    assert_eq!(p.bond_less(1, 450), Err(Error::BondBelowMin));
    assert_eq!(p.bond_less(1, 400), Ok(vec![]));
    let c = p.collators(1).unwrap();
    assert_eq!(c.active, 100);
    assert_eq!(c.unbonding, vec![UnBondChunk { value: 400, round: 4 }]);
}

#[test]
fn bond_less_cannot_take_nominated_stake() {
    let mut p = two_collators();
    p.nominate(9, 1, 300).unwrap();
    assert_eq!(p.collators(1).unwrap().active, 800);
    assert_eq!(p.bond_less(1, 600), Err(Error::Underflow));
    assert_eq!(p.bond_less(1, 400), Ok(vec![]));
    assert_eq!(p.collators(1).unwrap().active, 400);
}

#[test]
fn force_onboard_activates_at_once() {
    let mut p = Pallet::new(config());
    assert_eq!(p.force_onboard(1), Err(Error::CandidateNotExist));
    p.bond(1, 500).unwrap();
    assert_eq!(p.force_onboard(1), Ok(vec![]));
    let c = p.collators(1).unwrap();
    assert_eq!(c.active, 500);
    assert!(c.unlocking.is_empty());
    assert_eq!(c.status, StakerStatus::Active);
    assert_eq!(p.force_onboard(1), Err(Error::CandidateNotActive));
}

#[test]
fn nominate_errors() {
    let mut p = Pallet::new(config());
    assert_eq!(p.nominate(9, 1, 5), Err(Error::NominateBelowMin));
    assert_eq!(p.nominate(9, 1, 50), Err(Error::CandidateNotExist));
    p.bond(1, 500).unwrap();
    assert_eq!(p.nominate(9, 1, 50), Err(Error::CandidateNotActive));
    p.bond(2, 500).unwrap();
    p.bond(3, 500).unwrap();
    p.on_finalize(10).unwrap();
    p.nominate(9, 1, 50).unwrap();
    assert_eq!(p.nominate(9, 1, 50), Err(Error::AlreadyNominatedCollator));
    p.nominate(9, 2, 50).unwrap();
    assert_eq!(p.nominate(9, 3, 50), Err(Error::TooManyCandidates));
    p.nominate(8, 1, 50).unwrap();
    assert_eq!(p.nominate(7, 1, 50), Err(Error::TooManyNominations));
    assert_eq!(p.nominators(9).unwrap().total, 100);
    assert_eq!(p.collators(1).unwrap().total, 600);
}

#[test]
fn nominate_overflow_is_refused() {
    let mut p = two_collators();
    assert_eq!(p.nominate(9, 1, u128::MAX), Err(Error::Overflow));
    assert!(p.nominators(9).is_none());
}

#[test]
fn nominate_extra_paths() {
    let mut p = two_collators();
    assert_eq!(p.nominate_extra(9, 5, 10), Err(Error::CandidateNotExist));
    assert_eq!(p.nominate_extra(9, 1, 10), Err(Error::NominationNotExist));
    p.nominate(9, 1, 50).unwrap();
    assert_eq!(p.nominate_extra(9, 2, 10), Err(Error::CandidateNotExist));
    assert_eq!(p.nominate_extra(9, 1, u128::MAX), Err(Error::Overflow));
    assert_eq!(p.nominate_extra(9, 1, 10), Ok(vec![CurrencyOp::Reserve(9, 10)]));
    assert_eq!(p.nominators(9).unwrap().total, 60);
    assert_eq!(pairs(&p.nominators(9).unwrap().nominations), vec![(1, 60)]);
    assert_eq!(pairs(&p.collators(1).unwrap().nominations), vec![(9, 60)]);
    assert_eq!(p.collators(1).unwrap().total, 560);
    assert_eq!(p.collators(1).unwrap().active, 560);
}

#[test]
fn nominate_less_paths() {
    let mut p = two_collators();
    assert_eq!(p.nominate_less(9, 5, 10), Err(Error::CandidateNotExist));
    assert_eq!(p.nominate_less(9, 1, 10), Err(Error::NominationNotExist));
    p.nominate(9, 1, 50).unwrap();
    assert_eq!(p.nominate_less(9, 2, 10), Err(Error::CandidateNotExist));
    assert_eq!(p.nominate_less(9, 1, 50), Err(Error::Underflow));
    assert_eq!(p.nominate_less(9, 1, 45), Err(Error::NominateBelowMin));
    assert_eq!(p.nominate_less(9, 1, 20), Ok(vec![]));
    let n = p.nominators(9).unwrap();
    assert_eq!(n.total, 50);
    assert_eq!(n.nominations[0].amount, 30);
    assert_eq!(n.unbonding, vec![UnBondChunk { value: 20, round: 4 }]);
    let c = p.collators(1).unwrap();
    assert_eq!(pairs(&c.nominations), vec![(9, 30)]);
    assert_eq!(c.active, 530);
    assert_eq!(c.total, 530);
}

#[test]
fn nominator_leave_collator_errors() {
    let mut p = two_collators();
    assert_eq!(p.nominator_leave_collator(9, 1), Err(Error::NominationNotExist));
    p.nominate(9, 1, 50).unwrap();
    assert_eq!(p.nominator_leave_collator(9, 5), Err(Error::CandidateNotExist));
    assert_eq!(p.nominator_leave_collator(9, 2), Err(Error::CandidateNotExist));
}

#[test]
fn collator_unbond_errors() {
    let mut p = two_collators();
    assert_eq!(p.collator_unbond(5), Err(Error::BondNotExist));
    p.collator_unbond(1).unwrap();
    p.bond(1, 200).unwrap();
    assert_eq!(p.collator_unbond(1), Err(Error::AlreadyLeaving));
    assert!(p.collators(1).is_some());
}

#[test]
fn collator_unbond_keeps_pending_stake() {
    let mut p = two_collators();
    p.bond_extra(1, 40).unwrap();
    p.bond_less(1, 100).unwrap();
    p.collator_unbond(1).unwrap();
    let e = p.exit_queue(1).unwrap();
    assert_eq!(e.remaining, 440);
    assert_eq!(e.unbonding, vec![UnBondChunk { value: 100, round: 4 }]);
    assert_eq!(e.when, 4);
}

#[test]
fn on_finalize_waits_for_the_round_end() {
    let mut p = Pallet::new(config());
    p.bond(1, 500).unwrap();
    assert_eq!(p.on_finalize(9), None);
    assert_eq!(p.current_round().index, 1);
    assert_eq!(p.collators(1).unwrap().active, 0);
    let ops = p.on_finalize(12).unwrap();
    assert_eq!(ops, vec![CurrencyOp::Unreserve(1, 0)]);
    assert_eq!(p.current_round().index, 2);
    assert_eq!(p.current_round().start_in, 12);
    assert_eq!(p.collators(1).unwrap().active, 500);
    assert_eq!(p.on_finalize(21), None);
    assert!(p.on_finalize(22).is_some());
}

#[test]
fn reserved_funds_match_stake() {
    let mut p = Pallet::new(config());
    let mut reserved: HashMap<AccountId, i128> = HashMap::new();
    let mut now: u32 = 0;
    let steps: Vec<Box<dyn Fn(&mut Pallet) -> Result<Vec<CurrencyOp>, Error>>> = vec![
        Box::new(|p| p.bond(1, 500)),
        Box::new(|p| p.bond(2, 300)),
        Box::new(|p| p.nominate(9, 1, 50)),
        Box::new(|p| p.bond_extra(1, 70)),
        Box::new(|p| p.nominate(9, 2, 30)),
        Box::new(|p| p.nominate(8, 1, 40)),
        Box::new(|p| p.nominate_extra(9, 1, 5)),
        Box::new(|p| p.nominate_less(8, 1, 15)),
        Box::new(|p| p.bond_less(1, 100)),
        Box::new(|p| p.nominator_leave_collator(9, 2)),
        Box::new(|p| p.collator_unbond(1)),
        Box::new(|p| p.nominate(7, 2, 25)),
    ];
    for step in steps {
        if let Ok(ops) = step(&mut p) {
            apply(&mut reserved, &ops);
        }
        assert_eq!(reserved.values().sum::<i128>(), staked(&p));
        now += 10;
        let ops = p.on_finalize(now).unwrap();
        apply(&mut reserved, &ops);
        assert_eq!(reserved.values().sum::<i128>(), staked(&p));
        for (_, c) in &p.collator_entries {
            assert!(c.total >= c.active);
        }
        for (_, n) in &p.nominator_entries {
            assert!(n.total >= n.nominations.iter().map(|b| b.amount).sum::<u128>());
        }
    }
    for _ in 0..6 {
        now += 10;
        let ops = p.on_finalize(now).unwrap();
        apply(&mut reserved, &ops);
    }
    assert_eq!(reserved.values().sum::<i128>(), staked(&p));
    assert!(reserved.values().all(|v| *v >= 0));
    assert!(p.exit_queue(1).is_none());
    assert_eq!(reserved[&1], 0);
}

#[test]
fn duplicate_nomination_changes_nothing() {
    let mut p = two_collators();
    p.nominate(9, 1, 50).unwrap();
    let c_before = p.collators(1).unwrap().clone();
    let n_before = p.nominators(9).unwrap().clone();
    assert_eq!(p.nominate(9, 1, 70), Err(Error::AlreadyNominatedCollator));
    let c = p.collators(1).unwrap();
    let n = p.nominators(9).unwrap();
    assert_eq!(c.total, c_before.total);
    assert_eq!(c.active, c_before.active);
    assert_eq!(pairs(&c.nominations), pairs(&c_before.nominations));
    assert_eq!(n.total, n_before.total);
    assert_eq!(pairs(&n.nominations), pairs(&n_before.nominations));
}

#[test]
fn election_snapshots() {
    let mut p = Pallet::new(config());
    p.bond(1, 500).unwrap();
    p.bond(2, 300).unwrap();
    p.on_finalize(10).unwrap();
    p.bond(3, 200).unwrap();
    p.nominate(9, 2, 50).unwrap();
    p.nominate(9, 1, 40).unwrap();

    assert_eq!(p.get_npos_targets(), vec![1, 2]);
    assert_eq!(p.targets(None), Ok(vec![1, 2]));
    assert_eq!(p.targets(Some(2)), Ok(vec![1, 2]));
    assert_eq!(p.targets(Some(1)), Err(Error::SnapshotTooLarge));

    let expected = vec![(1, 540, vec![1]), (2, 350, vec![2]), (9, 90, vec![1, 2])];
    assert_eq!(p.get_npos_voters(), expected);
    assert_eq!(p.voters(Some(3)), Ok(expected.clone()));
    assert_eq!(p.voters(None), Ok(expected));
    assert_eq!(p.voters(Some(2)), Err(Error::SnapshotTooLarge));
}

#[test]
fn slashable_balances() {
    let mut p = two_collators();
    p.bond(3, 200).unwrap();
    p.nominate(9, 1, 50).unwrap();
    assert_eq!(p.slashable_balance_of(1, StakerStatus::Validator), 550);
    assert_eq!(p.slashable_balance_of(3, StakerStatus::Validator), 0);
    assert_eq!(p.slashable_balance_of(9, StakerStatus::Nominator), 50);
    assert_eq!(p.slashable_balance_of(9, StakerStatus::Validator), 0);
    assert_eq!(p.slashable_balance_of(1, StakerStatus::Idle), 0);
}

#[test]
fn election_prediction_follows_round_parity() {
    let mut p = Pallet::new(config());
    assert_eq!(p.next_election_prediction(0), 20);
    p.on_finalize(10).unwrap();
    assert_eq!(p.next_election_prediction(10), 20);
}

#[test]
fn genesis_bonds_stakers() {
    let g = GenesisConfig { stakers: vec![(1, 500), (2, 50), (1, 300), (3, 200)] };
    let (p, ops) = g.build(config());
    assert_eq!(ops, vec![CurrencyOp::Reserve(1, 500), CurrencyOp::Reserve(3, 200)]);
    assert_eq!(p.current_round().index, 1);
    assert_eq!(p.collators(1).unwrap().unlocking, vec![UnlockChunk { value: 500, round: 1 }]);
    assert!(p.collators(2).is_none());
    assert!(GenesisConfig::default().stakers.is_empty());
}

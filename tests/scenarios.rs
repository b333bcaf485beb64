use polkafoundry_staking::bond::{AccountId, Balance, UnBondChunk, UnlockChunk};
use polkafoundry_staking::collator::StakerStatus;
use polkafoundry_staking::pallet::{Config, CurrencyOp, Error, Pallet};

const A: AccountId = 1;
const C: AccountId = 2;
const N: AccountId = 3;

fn config() -> Config {
    Config {
        blocks_per_round: 10,
        max_collators_per_nominator: 5,
        max_nominations_per_collator: 4,
        bond_duration: 2,
        min_collator_stake: 100,
        min_nominator_stake: 10,
        vesting_after: 2,
        desired_targets: 10,
    }
}

/// Runs round boundaries until the round index reaches `index`.
fn advance_to(p: &mut Pallet, index: u32) -> Vec<CurrencyOp> {
    let mut all = Vec::new();
    while p.current_round().index < index {
        let now = p.current_round().start_in + p.current_round().length;
        let ops = p.on_finalize(now).expect("round boundary");
        all.extend(ops);
    }
    all
}

fn unreserved_for(ops: &[CurrencyOp], who: AccountId) -> Balance {
    ops.iter()
        .map(|o| match o {
            CurrencyOp::Unreserve(w, a) if *w == who => *a,
            _ => 0,
        })
        .sum()
}

#[test]
fn bond_then_activate() {
    let mut p = Pallet::new(config());
    assert_eq!(p.current_round().index, 1);
    let ops = p.bond(A, 500).unwrap();
    assert_eq!(ops, vec![CurrencyOp::Reserve(A, 500)]);
    let c = p.collators(A).unwrap();
    assert_eq!(c.active, 0);
    assert_eq!(c.total, 500);
    assert_eq!(c.unlocking, vec![UnlockChunk { value: 500, round: 2 }]);
    assert_eq!(c.status, StakerStatus::Onboarding);

    advance_to(&mut p, 2);
    let c = p.collators(A).unwrap();
    assert_eq!(c.active, 500);
    assert!(c.unlocking.is_empty());
    assert_eq!(c.status, StakerStatus::Active);
}

#[test]
fn bond_less_underflow_rejection() {
    let mut p = Pallet::new(config());
    p.bond(A, 500).unwrap();
    advance_to(&mut p, 2);
    assert_eq!(p.collators(A).unwrap().active, 500);
    assert_eq!(p.bond_less(A, 600), Err(Error::Underflow));
    assert_eq!(p.bond_less(A, 500), Err(Error::Underflow));
    assert_eq!(p.collators(A).unwrap().active, 500);
    assert!(p.collators(A).unwrap().unbonding.is_empty());
}

#[test]
fn nominate_then_remove() {
    let mut p = Pallet::new(config());
    p.bond(C, 400).unwrap();
    advance_to(&mut p, 2);
    let before = p.collators(C).unwrap().clone();
    let ops = p.nominate(N, C, 100).unwrap();
    assert_eq!(ops, vec![CurrencyOp::Reserve(N, 100)]);
    let c = p.collators(C).unwrap();
    assert_eq!(c.active, before.active + 100);
    assert_eq!(c.total, before.total + 100);
    assert_eq!(c.nominations.iter().filter(|b| b.owner == N).count(), 1);

    advance_to(&mut p, 5);
    assert_eq!(p.current_round().index, 5);
    let ops = p.nominator_leave_collator(N, C).unwrap();
    assert!(ops.is_empty());
    let c = p.collators(C).unwrap();
    assert!(c.nominations.iter().all(|b| b.owner != N));
    assert_eq!(c.active, before.active);
    assert_eq!(c.total, before.total);
    let n = p.nominators(N).unwrap();
    assert_eq!(n.unbonding, vec![UnBondChunk { value: 100, round: 7 }]);
    assert_eq!(n.total, 100);

    let ops = advance_to(&mut p, 6);
    assert_eq!(unreserved_for(&ops, N), 0);
    assert_eq!(p.nominators(N).unwrap().total, 100);
    let ops = advance_to(&mut p, 7);
    assert_eq!(unreserved_for(&ops, N), 100);
    let n = p.nominators(N).unwrap();
    assert_eq!(n.total, 0);
    assert!(n.unbonding.is_empty());
}

#[test]
fn collator_exit_queue() {
    let mut p = Pallet::new(config());
    p.bond(C, 250).unwrap();
    advance_to(&mut p, 2);
    p.nominate(N, C, 50).unwrap();
    advance_to(&mut p, 3);
    assert_eq!(p.collators(C).unwrap().active, 300);

    let ops = p.collator_unbond(C).unwrap();
    assert_eq!(ops, vec![CurrencyOp::Unreserve(N, 50)]);
    assert!(p.collators(C).is_none());
    let e = p.exit_queue(C).unwrap();
    assert_eq!(e.remaining, 250);
    assert_eq!(e.when, 5);
    let n = p.nominators(N).unwrap();
    assert!(n.nominations.is_empty());
    assert_eq!(n.total, 0);

    let ops = advance_to(&mut p, 4);
    assert_eq!(unreserved_for(&ops, C), 0);
    assert!(p.exit_queue(C).is_some());
    let ops = advance_to(&mut p, 5);
    assert_eq!(unreserved_for(&ops, C), 250);
    assert!(p.exit_queue(C).is_none());
}

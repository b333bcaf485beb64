use polkafoundry_staking::bond::{
    split_unbonding, split_unlocking, Bond, UnBondChunk, UnlockChunk,
};
use polkafoundry_staking::collator::{StakerStatus, StakingCollators};
use polkafoundry_staking::leaving::Leaving;
use polkafoundry_staking::nominations::{owners, search_owner, total_of_bonds};
use polkafoundry_staking::nominator::StakingNominators;
use polkafoundry_staking::round::RoundInfo;

fn bond(owner: u64, amount: u128) -> Bond {
    Bond { owner, amount }
}

fn pairs(v: &[Bond]) -> Vec<(u64, u128)> {
    v.iter().map(|b| (b.owner, b.amount)).collect()
}

fn active_collator(amount: u128) -> StakingCollators {
    let mut c = StakingCollators::new(amount, 2);
    c.active_onboard();
    c.consolidate_active(2)
}

#[test]
fn new_collator_is_onboarding() {
    let c = StakingCollators::new(500, 4);
    assert_eq!(c.total, 500);
    assert_eq!(c.active, 0);
    assert!(c.nominations.is_empty());
    assert_eq!(c.unlocking, vec![UnlockChunk { value: 500, round: 4 }]);
    assert!(c.unbonding.is_empty());
    assert_eq!(c.status, StakerStatus::Onboarding);
    assert_eq!(StakerStatus::default(), StakerStatus::Onboarding);
    assert!(!c.is_active());
}

#[test]
fn active_onboard_only_moves_onboarding() {
    let mut c = StakingCollators::new(500, 4);
    c.active_onboard();
    assert_eq!(c.status, StakerStatus::Active);
    let mut d = StakingCollators::new(500, 4);
    d.status = StakerStatus::Idle;
    d.active_onboard();
    assert_eq!(d.status, StakerStatus::Idle);
}

#[test]
fn consolidate_active_releases_only_due_chunks() {
    let mut c = active_collator(100);
    c.bond_extra(20, 5);
    c.bond_extra(30, 3);
    c.bond_extra(40, 4);
    assert_eq!(c.total, 190);
    let c = c.consolidate_active(2);
    assert_eq!(c.active, 100);
    assert_eq!(c.unlocking.len(), 3);
    let c = c.consolidate_active(4);
    assert_eq!(c.active, 170);
    assert_eq!(c.unlocking, vec![UnlockChunk { value: 20, round: 5 }]);
    let c = c.consolidate_active(4);
    assert_eq!(c.active, 170);
    let c = c.consolidate_active(9);
    assert_eq!(c.active, 190);
    assert!(c.unlocking.is_empty());
    assert_eq!(c.total, 190);
}

#[test]
fn bond_less_moves_stake_to_unbonding() {
    let mut c = active_collator(500);
    assert_eq!(c.bond_less(200, 6), Some(300));
    assert_eq!(c.active, 300);
    assert_eq!(c.total, 500);
    assert_eq!(c.unbonding, vec![UnBondChunk { value: 200, round: 6 }]);
    assert_eq!(c.bond_less(300, 6), None);
    assert_eq!(c.active, 300);
}

#[test]
fn consolidate_unbonded_releases_each_chunk_once() {
    let mut c = active_collator(500);
    c.bond_less(100, 4);
    c.bond_less(50, 6);
    let before = c.total;
    let c = c.consolidate_unbonded(3);
    assert_eq!(c.total, before);
    let c = c.consolidate_unbonded(4);
    assert_eq!(c.total, before - 100);
    assert_eq!(c.unbonding, vec![UnBondChunk { value: 50, round: 6 }]);
    let again = c.clone().consolidate_unbonded(4);
    assert_eq!(again.total, c.total);
    assert_eq!(again.unbonding, c.unbonding);
    let c = c.consolidate_unbonded(10);
    assert_eq!(c.total, 350);
    assert!(c.unbonding.is_empty());
}

#[test]
fn collator_add_nomination_keeps_owners_sorted_and_unique() {
    let mut c = active_collator(500);
    assert!(c.add_nomination(bond(30, 10)));
    assert!(c.add_nomination(bond(10, 20)));
    assert!(c.add_nomination(bond(20, 30)));
    assert_eq!(pairs(&c.nominations), vec![(10, 20), (20, 30), (30, 10)]);
    assert_eq!(c.active, 560);
    assert_eq!(c.total, 560);
    let snapshot = c.clone();
    assert!(!c.add_nomination(bond(20, 999)));
    assert_eq!(pairs(&c.nominations), pairs(&snapshot.nominations));
    assert_eq!(c.active, snapshot.active);
    assert_eq!(c.total, snapshot.total);
}

#[test]
fn collator_nominate_extra_and_less() {
    let mut c = active_collator(500);
    c.add_nomination(bond(7, 40));
    assert_eq!(c.nominate_extra(bond(7, 15)), Some(55));
    assert_eq!(c.active, 555);
    assert_eq!(c.total, 555);
    assert_eq!(c.nominate_extra(bond(8, 15)), None);
    assert_eq!(c.nominate_less(bond(7, 5)), Some(Some(50)));
    assert_eq!(c.active, 550);
    assert_eq!(c.total, 550);
    assert_eq!(c.nominate_less(bond(7, 50)), Some(None));
    assert_eq!(c.active, 550);
    assert_eq!(c.nominate_less(bond(9, 1)), None);
}

#[test]
fn collator_rm_nomination() {
    let mut c = active_collator(500);
    c.add_nomination(bond(7, 40));
    c.add_nomination(bond(9, 60));
    assert_eq!(c.nomination_total(), 100);
    assert_eq!(c.rm_nomination(7), Some(560));
    assert_eq!(c.total, 560);
    assert_eq!(pairs(&c.nominations), vec![(9, 60)]);
    assert_eq!(c.rm_nomination(7), None);
}

#[test]
fn force_bond_makes_everything_active() {
    let mut c = StakingCollators::new(500, 8);
    c.bond_extra(20, 9);
    c.force_bond();
    assert_eq!(c.active, 520);
    assert!(c.unlocking.is_empty());
    assert_eq!(c.status, StakerStatus::Active);
}

#[test]
fn nominator_ledger_operations() {
    let mut n = StakingNominators::new(vec![bond(5, 100)], 100);
    assert!(n.add_nomination(bond(2, 50)));
    assert!(!n.add_nomination(bond(5, 1)));
    assert_eq!(n.total, 150);
    assert_eq!(owners(&n.nominations), vec![2, 5]);
    assert_eq!(pairs(&n.nominations), vec![(2, 50), (5, 100)]);
    assert_eq!(n.nominate_extra(bond(2, 10)), Some(60));
    assert_eq!(n.nominate_extra(bond(3, 10)), None);
    assert_eq!(n.total, 160);
    assert_eq!(n.nominate_less(bond(5, 30), 9), Some(Some(70)));
    assert_eq!(n.total, 160);
    assert_eq!(n.unbonding, vec![UnBondChunk { value: 30, round: 9 }]);
    assert_eq!(n.nominate_less(bond(5, 70), 9), Some(None));
    assert_eq!(n.nominate_less(bond(4, 1), 9), None);
    assert_eq!(n.rm_nomination(2, 11), Some(160));
    assert_eq!(pairs(&n.nominations), vec![(5, 70)]);
    assert_eq!(n.unbonding.len(), 2);
    assert_eq!(n.rm_nomination(2, 11), None);
    let n = n.consolidate_unbonded(9);
    assert_eq!(n.total, 130);
    let n = n.consolidate_unbonded(11);
    assert_eq!(n.total, 70);
    assert!(n.unbonding.is_empty());
}

#[test]
fn nominator_release_nomination() {
    let mut n = StakingNominators::new(vec![bond(5, 100)], 100);
    assert_eq!(n.release_nomination(5), Some(100));
    assert_eq!(n.total, 0);
    assert!(n.nominations.is_empty());
    assert_eq!(n.release_nomination(5), None);
}

#[test]
fn bond_equality_is_by_owner() {
    assert!(bond(1, 10) == bond(1, 99));
    assert!(bond(1, 10) != bond(2, 10));
    assert!(bond(1, 10) < bond(2, 5));
    assert_eq!(bond(3, 1).partial_cmp(&bond(3, 2)), Some(std::cmp::Ordering::Equal));
}

#[test]
fn search_owner_finds_or_places() {
    let v = vec![bond(2, 1), bond(5, 1), bond(9, 1)];
    assert_eq!(search_owner(&v, 5), Ok(1));
    assert_eq!(search_owner(&v, 1), Err(0));
    assert_eq!(search_owner(&v, 6), Err(2));
    assert_eq!(search_owner(&v, 10), Err(3));
    assert_eq!(search_owner(&Vec::new(), 4), Err(0));
    assert_eq!(total_of_bonds(&v), 3);
}

#[test]
fn split_chunks_by_round() {
    let unbonding = vec![
        UnBondChunk { value: 1, round: 3 },
        UnBondChunk { value: 2, round: 5 },
        UnBondChunk { value: 4, round: 4 },
    ];
    let (kept, due) = split_unbonding(unbonding, 4);
    assert_eq!(kept, vec![UnBondChunk { value: 2, round: 5 }]);
    assert_eq!(due, 5);
    let unlocking = vec![UnlockChunk { value: 7, round: 2 }, UnlockChunk { value: 8, round: 1 }];
    let (kept, due) = split_unlocking(unlocking, 1);
    assert_eq!(kept, vec![UnlockChunk { value: 7, round: 2 }]);
    assert_eq!(due, 8);
}

#[test]
fn leaving_drain() {
    let e = Leaving::new(250, vec![UnBondChunk { value: 10, round: 4 }, UnBondChunk { value: 20, round: 6 }], 5);
    let (rest, released) = e.clone().drain(4);
    let rest = rest.unwrap();
    assert_eq!(released, 10);
    assert_eq!(rest.remaining, 250);
    assert_eq!(rest.unbonding, vec![UnBondChunk { value: 20, round: 6 }]);
    let (rest, released) = e.drain(5);
    assert!(rest.is_none());
    assert_eq!(released, 280);
}

#[test]
fn round_clock() {
    let mut r = RoundInfo::new(1, 0, 10);
    assert!(!r.should_goto_next_round(9));
    assert!(r.should_goto_next_round(10));
    assert_eq!(r.next_round_index(), 2);
    assert_eq!(r.next_election_prediction(7), 17);
    r.update(10, 12);
    assert_eq!(r, RoundInfo { index: 2, start_in: 10, length: 12 });
    assert_eq!(r.next_election_prediction(7), 22);
    assert!(!r.should_goto_next_round(5));
    assert!(!r.should_goto_next_round(21));
    assert!(r.should_goto_next_round(22));
}

#[test]
fn round_clock_saturates() {
    let mut r = RoundInfo::new(u32::MAX, u32::MAX - 3, 10);
    assert_eq!(r.next_round_index(), u32::MAX);
    assert_eq!(r.next_election_prediction(5), u32::MAX);
    r.update(5, 1);
    assert_eq!(r.index, u32::MAX);
}

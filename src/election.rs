//! Snapshots of the store for the election of the active collator set.
use vstd::prelude::*;
use crate::bond::{AccountId, Balance, BlockNumber};
use crate::collator::{StakerStatus, StakingCollators};
use crate::keyed::find_key;
use crate::nominations::{owners, owners_of};
use crate::nominator::StakingNominators;
use crate::pallet::{Error, Pallet};
use crate::round::saturate_u32;

verus! {

/// The active collators of `s`, in order.
pub open spec fn active_targets(s: Seq<(AccountId, StakingCollators)>) -> Seq<AccountId>
    decreases s.len(),
{
    if s.len() == 0 {
        Seq::empty()
    } else if s.last().1.status == StakerStatus::Active {
        active_targets(s.drop_last()).push(s.last().0)
    } else {
        active_targets(s.drop_last())
    }
}

/// A vote: the voter, its weight, and the collators it votes for.
pub type VoteView = (AccountId, Balance, Seq<AccountId>);

/// One vote of each active collator of `s` for itself, weighted by its active stake.
pub open spec fn self_votes(s: Seq<(AccountId, StakingCollators)>) -> Seq<VoteView>
    decreases s.len(),
{
    if s.len() == 0 {
        Seq::empty()
    } else if s.last().1.status == StakerStatus::Active {
        self_votes(s.drop_last()).push((s.last().0, s.last().1.active, seq![s.last().0]))
    } else {
        self_votes(s.drop_last())
    }
}

/// One vote of each nominator of `s` for the collators it nominates, weighted by
/// its total.
pub open spec fn nominator_votes(s: Seq<(AccountId, StakingNominators)>) -> Seq<VoteView> {
    s.map_values(
        |e: (AccountId, StakingNominators)| (e.0, e.1.total, owners_of(e.1.nominations@)),
    )
}

/// `max` bounds a snapshot below `n` entries.
pub open spec fn exceeds(max: Option<usize>, n: int) -> bool {
    match max {
        Some(m) => n > m,
        None => false,
    }
}

/// Votes as values.
pub open spec fn votes_view(v: Seq<(AccountId, Balance, Vec<AccountId>)>) -> Seq<VoteView> {
    v.map_values(|x: (AccountId, Balance, Vec<AccountId>)| (x.0, x.1, x.2@))
}

impl Pallet {
    /// The active collators, in store order.
    pub fn get_npos_targets(&self) -> (r: Vec<AccountId>)
        ensures
            r@ == active_targets(self.collator_entries@),
    {
        let mut out: Vec<AccountId> = Vec::new();
        let mut i: usize = 0;
        while i < self.collator_entries.len()
            invariant
                0 <= i <= self.collator_entries@.len(),
                out@ == active_targets(self.collator_entries@.take(i as int)),
            decreases self.collator_entries@.len() - i,
        {
            proof {
                assert(self.collator_entries@.take(i + 1).drop_last() =~= self.collator_entries@.take(
                    i as int,
                ));
            }
            if self.collator_entries[i].1.is_active() {
                out.push(self.collator_entries[i].0);
            }
            i = i + 1;
        }
        assert(self.collator_entries@.take(self.collator_entries@.len() as int)
            =~= self.collator_entries@);
        out
    }

    /// Every vote for the election: a self vote of each active collator, weighted
    /// by its active stake, then a vote of each nominator for the collators it
    /// nominates, weighted by its total.
    pub fn get_npos_voters(&self) -> (r: Vec<(AccountId, Balance, Vec<AccountId>)>)
        ensures
            votes_view(r@) == self_votes(self.collator_entries@) + nominator_votes(
                self.nominator_entries@,
            ),
    {
        let mut out: Vec<(AccountId, Balance, Vec<AccountId>)> = Vec::new();
        let mut i: usize = 0;
        proof {
            assert(votes_view(out@) =~= Seq::<VoteView>::empty());
        }
        while i < self.collator_entries.len()
            invariant
                0 <= i <= self.collator_entries@.len(),
                votes_view(out@) == self_votes(self.collator_entries@.take(i as int)),
            decreases self.collator_entries@.len() - i,
        {
            proof {
                assert(self.collator_entries@.take(i + 1).drop_last() =~= self.collator_entries@.take(
                    i as int,
                ));
            }
            if self.collator_entries[i].1.is_active() {
                let who = self.collator_entries[i].0;
                let mut target: Vec<AccountId> = Vec::new();
                target.push(who);
                let ghost out0 = out@;
                out.push((who, self.collator_entries[i].1.active, target));
                proof {
                    assert(target@ =~= seq![who]);
                    assert(votes_view(out@) =~= votes_view(out0).push(
                        (who, self.collator_entries@[i as int].1.active, seq![who]),
                    ));
                }
            }
            i = i + 1;
        }
        let ghost own = votes_view(out@);
        proof {
            assert(self.collator_entries@.take(self.collator_entries@.len() as int)
                =~= self.collator_entries@);
            assert(nominator_votes(self.nominator_entries@.take(0)) =~= Seq::<VoteView>::empty());
            assert(own + Seq::<VoteView>::empty() =~= own);
        }
        let mut j: usize = 0;
        while j < self.nominator_entries.len()
            invariant
                0 <= j <= self.nominator_entries@.len(),
                own == self_votes(self.collator_entries@),
                votes_view(out@) == own + nominator_votes(self.nominator_entries@.take(j as int)),
            decreases self.nominator_entries@.len() - j,
        {
            let ghost out0 = out@;
            let targets = owners(&self.nominator_entries[j].1.nominations);
            out.push((self.nominator_entries[j].0, self.nominator_entries[j].1.total, targets));
            proof {
                let e = self.nominator_entries@[j as int];
                assert(nominator_votes(self.nominator_entries@.take(j + 1)) =~= nominator_votes(
                    self.nominator_entries@.take(j as int),
                ).push((e.0, e.1.total, owners_of(e.1.nominations@))));
                assert(votes_view(out@) =~= votes_view(out0).push(
                    (e.0, e.1.total, owners_of(e.1.nominations@)),
                ));
                assert(votes_view(out@) =~= own + nominator_votes(
                    self.nominator_entries@.take(j + 1),
                ));
            }
            j = j + 1;
        }
        assert(self.nominator_entries@.take(self.nominator_entries@.len() as int)
            =~= self.nominator_entries@);
        out
    }

    /// The election targets; refused where `maybe_max_len` bounds them below their
    /// number.
    pub fn targets(&self, maybe_max_len: Option<usize>) -> (r: Result<Vec<AccountId>, Error>)
        ensures
            exceeds(maybe_max_len, active_targets(self.collator_entries@).len() as int) ==> r
                == Err::<Vec<AccountId>, Error>(Error::SnapshotTooLarge),
            !exceeds(maybe_max_len, active_targets(self.collator_entries@).len() as int) ==> (r matches Ok(t)
                && t@ == active_targets(self.collator_entries@)),
    {
        let t = self.get_npos_targets();
        match maybe_max_len {
            Some(m) => {
                if t.len() > m {
                    return Err(Error::SnapshotTooLarge);
                }
            },
            None => {},
        }
        Ok(t)
    }

    /// The election voters; refused where `maybe_max_len` bounds them below their
    /// number.
    pub fn voters(&self, maybe_max_len: Option<usize>) -> (r: Result<
        Vec<(AccountId, Balance, Vec<AccountId>)>,
        Error,
    >)
        ensures
            exceeds(
                maybe_max_len,
                (self_votes(self.collator_entries@).len() + self.nominator_entries@.len()) as int,
            ) ==> r == Err::<Vec<(AccountId, Balance, Vec<AccountId>)>, Error>(
                Error::SnapshotTooLarge,
            ),
            !exceeds(
                maybe_max_len,
                (self_votes(self.collator_entries@).len() + self.nominator_entries@.len()) as int,
            ) ==> (r matches Ok(v) && votes_view(v@) == self_votes(self.collator_entries@)
                + nominator_votes(self.nominator_entries@)),
    {
        let v = self.get_npos_voters();
        proof {
            assert(votes_view(v@).len() == v@.len());
        }
        match maybe_max_len {
            Some(m) => {
                if v.len() > m {
                    return Err(Error::SnapshotTooLarge);
                }
            },
            None => {},
        }
        Ok(v)
    }

    /// The number of collators that the election should select.
    pub fn desired_targets(&self) -> (r: u32)
        ensures
            r == self.config.desired_targets,
    {
        self.config.desired_targets
    }

    /// The block at which the next election is expected, from the current round
    /// and the configured round length.
    pub fn next_election_prediction(&self, _now: BlockNumber) -> (r: BlockNumber)
        ensures
            r == (if self.round.index % 2 == 0 {
                saturate_u32(self.round.start_in + self.round.length)
            } else {
                saturate_u32(
                    self.round.start_in + self.round.length + self.config.blocks_per_round,
                )
            }),
    {
        self.round.next_election_prediction(self.config.blocks_per_round)
    }

    /// The stake of `stash` that counts in the election under `status`: the
    /// active stake of an active collator, the total of a nominator, else zero.
    pub fn slashable_balance_of(&self, stash: AccountId, status: StakerStatus) -> (r: Balance)
        requires
            self.wf(),
        ensures
            r == match status {
                StakerStatus::Validator => match self.collator_ledger(stash) {
                    Some(c) => if c.status == StakerStatus::Active {
                        c.active
                    } else {
                        0
                    },
                    None => 0,
                },
                StakerStatus::Nominator => match self.nominator_ledger(stash) {
                    Some(n) => n.total,
                    None => 0,
                },
                _ => 0,
            },
    {
        match status {
            StakerStatus::Validator => match find_key(&self.collator_entries, stash) {
                Some(i) => {
                    if self.collator_entries[i].1.is_active() {
                        self.collator_entries[i].1.active
                    } else {
                        0
                    }
                },
                None => 0,
            },
            StakerStatus::Nominator => match find_key(&self.nominator_entries, stash) {
                Some(i) => self.nominator_entries[i].1.total,
                None => 0,
            },
            _ => 0,
        }
    }
}

} // verus!

//! Which approvals a block has, and whether they suffice to produce it.
use crate::approval::{Approval, ApprovalView};
use crate::assoc::{at_key, distinct_keys, lemma_pair_in_map, lemma_pairs_map_push, pairs_map};
use crate::stake::{
    approval_views, by_account, endorsers, lemma_endorsers_insert, lemma_stake_sum_at_most_total,
    lemma_stake_sum_empty, lemma_stake_sum_insert, lists, stake_sum, total_stake, validator_pairs,
    StakeMap,
};
use crate::time::Instant;
use crate::types::{Balance, ValidatorStake};
use vstd::prelude::*;

verus! {

/// The threshold for doomslug to create a block.
#[derive(PartialEq, Eq, Debug, Clone, Copy, Structural)]
pub enum DoomslugThresholdMode {
    /// The block can be produced if it has at least one approval. Serves tests that want lots of
    /// forks.
    SingleApproval,
    /// The block can only be produced if more than half of the stake is approving it. This is
    /// what guarantees doomslug finality.
    HalfStake,
}

/// The result of processing an approval.
#[derive(PartialEq, Eq, Debug, Structural)]
pub enum DoomslugBlockProductionReadiness {
    /// The block does not have enough approvals.
    NotReady,
    /// The block has passed the threshold set by the threshold mode, and did so at this time. It
    /// can be produced once enough time has gone by since.
    PassedThreshold(Instant),
    /// The block can be produced without waiting: it has 2/3 of approvals and doomslug finality
    /// on the previous block.
    ReadyToProduce,
}

/// What is known of the approvals of one block.
#[verifier::ext_equal]
pub struct TrackerView {
    /// The first approval of each account that sent one.
    pub witness: Map<Seq<char>, ApprovalView>,
    pub stakes: Map<Seq<char>, Balance>,
    pub time_passed_threshold: Option<Instant>,
    pub threshold_mode: DoomslugThresholdMode,
}

impl TrackerView {
    /// The tracker of a block that has no approvals yet.
    pub open spec fn fresh(
        stakes: Map<Seq<char>, Balance>,
        threshold_mode: DoomslugThresholdMode,
    ) -> TrackerView {
        TrackerView { witness: Map::empty(), stakes, time_passed_threshold: None, threshold_mode }
    }

    pub open spec fn wf(self) -> bool {
        &&& self.witness.dom().finite()
        &&& self.stakes.dom().finite()
        &&& forall|account: Seq<char>| #[trigger]
            self.witness.dom().contains(account) ==> self.witness[account].account_id == account
    }

    pub open spec fn total_stake(self) -> nat {
        total_stake(self.stakes)
    }

    /// The stake of the accounts that sent an approval.
    pub open spec fn approved_stake(self) -> nat {
        stake_sum(self.stakes, self.witness.dom())
    }

    /// The stake of the accounts that sent an endorsement.
    pub open spec fn endorsed_stake(self) -> nat {
        stake_sum(self.stakes, endorsers(self.witness))
    }

    /// More than 2/3 of the stake approves of the block, and more than half endorses its parent.
    pub open spec fn is_ready(self) -> bool {
        &&& self.approved_stake() > self.total_stake() * 2 / 3
        &&& self.endorsed_stake() > self.total_stake() / 2
    }

    /// The approvals suffice for the block to be produced in time: more than half of the stake
    /// approves, or, with `SingleApproval`, anybody does.
    pub open spec fn is_past_threshold(self) -> bool {
        ||| self.approved_stake() > self.total_stake() / 2
        ||| self.threshold_mode == DoomslugThresholdMode::SingleApproval
            && self.witness.dom().len() > 0
    }

    /// The time that was noted for passing the threshold, or `now` where none was noted yet.
    pub open spec fn passed_at(self, now: Instant) -> Instant {
        match self.time_passed_threshold {
            Some(time) => time,
            None => now,
        }
    }

    pub open spec fn readiness(self, now: Instant) -> DoomslugBlockProductionReadiness {
        if self.is_ready() {
            DoomslugBlockProductionReadiness::ReadyToProduce
        } else if self.is_past_threshold() {
            DoomslugBlockProductionReadiness::PassedThreshold(self.passed_at(now))
        } else {
            DoomslugBlockProductionReadiness::NotReady
        }
    }

    /// The tracker after its readiness was asked for at `now`: a threshold that has been passed
    /// is noted with the time at which that was first seen.
    pub open spec fn asked_at(self, now: Instant) -> TrackerView {
        if !self.is_ready() && self.is_past_threshold() {
            TrackerView { time_passed_threshold: Some(self.passed_at(now)), ..self }
        } else {
            self
        }
    }

    /// The tracker with one more approval. Of each account only the first approval counts.
    pub open spec fn with_approval(self, approval: ApprovalView) -> TrackerView {
        if self.witness.dom().contains(approval.account_id) {
            self
        } else {
            TrackerView {
                witness: self.witness.insert(approval.account_id, approval),
                ..self
            }
        }
    }
}

/// Collects the approvals of one block.
pub struct DoomslugApprovalsTracker {
    witness: Vec<Approval>,
    account_id_to_stake: StakeMap,
    total_stake: Balance,
    approved_stake: Balance,
    endorsed_stake: Balance,
    time_passed_threshold: Option<Instant>,
    threshold_mode: DoomslugThresholdMode,
}

impl View for DoomslugApprovalsTracker {
    type V = TrackerView;

    closed spec fn view(&self) -> TrackerView {
        TrackerView {
            witness: pairs_map(self.pairs()),
            stakes: self.account_id_to_stake@,
            time_passed_threshold: self.time_passed_threshold,
            threshold_mode: self.threshold_mode,
        }
    }
}

impl DoomslugApprovalsTracker {
    closed spec fn pairs(&self) -> Seq<(Seq<char>, ApprovalView)> {
        by_account(approval_views(self.witness@))
    }

    /// No account occurs twice, and the sums are those of the approvals at hand.
    pub closed spec fn sums_are_right(&self) -> bool {
        &&& self.account_id_to_stake.wf()
        &&& distinct_keys(self.pairs())
        &&& self.total_stake == self@.total_stake()
        &&& self.approved_stake == self@.approved_stake()
        &&& self.endorsed_stake == self@.endorsed_stake()
    }

    /// The fields are consistent, and so is what they say.
    pub open spec fn wf(&self) -> bool {
        self.sums_are_right() && self@.wf()
    }

    /// A tracker without approvals, for validators of which no two share an account.
    pub fn new(
        stakes: &Vec<ValidatorStake>,
        threshold_mode: DoomslugThresholdMode,
    ) -> (tracker: DoomslugApprovalsTracker)
        requires
            distinct_keys(validator_pairs(stakes@)),
            total_stake(pairs_map(validator_pairs(stakes@))) <= u128::MAX,
        ensures
            tracker.wf(),
            tracker@ == TrackerView::fresh(pairs_map(validator_pairs(stakes@)), threshold_mode),
    {
        let account_id_to_stake = StakeMap::from_validators(stakes);
        let total_stake = account_id_to_stake.total();
        let tracker = DoomslugApprovalsTracker {
            witness: Vec::new(),
            account_id_to_stake,
            total_stake,
            approved_stake: 0,
            endorsed_stake: 0,
            time_passed_threshold: None,
            threshold_mode,
        };
        proof {
            tracker.account_id_to_stake.lemma_finite();
            assert(tracker@.witness =~= Map::empty());
            assert(tracker@.witness.dom() =~= Set::empty());
            assert(endorsers(tracker@.witness) =~= Set::empty());
            lemma_stake_sum_empty(tracker@.stakes);
        }
        tracker
    }

    /// Whether `account_id` has sent an approval.
    fn has_approval_of(&self, account_id: &String) -> (found: bool)
        ensures
            found == self@.witness.dom().contains(account_id@),
    {
        let mut i: usize = 0;
        while i < self.witness.len()
            invariant
                i <= self.witness.len(),
                forall|j: int| 0 <= j < i ==> self.witness[j].account_id@ != account_id@,
            decreases self.witness.len() - i,
        {
            if self.witness[i].account_id == *account_id {
                proof {
                    assert(at_key(self.pairs(), account_id@, i as int));
                }
                return true;
            }
            i += 1;
        }
        proof {
            if self@.witness.dom().contains(account_id@) {
                let j = choose|j: int| at_key(self.pairs(), account_id@, j);
                assert(self.witness[j].account_id@ != account_id@);
            }
        }
        false
    }

    /// Given a single approval (either an endorsement or a skip-message) updates the approved
    /// stake on the block that is being approved, and returns the largest threshold that is
    /// crossed. Only returns `ReadyToProduce` if the block has 2/3 approvals and 1/2 endorsements;
    /// the readiness due to enough time passing since crossing the threshold is for the caller to
    /// handle.
    pub fn process_approval(&mut self, now: Instant, approval: &Approval) -> (readiness:
        DoomslugBlockProductionReadiness)
        requires
            old(self).wf(),
            old(self)@.total_stake() * 2 <= u128::MAX,
        ensures
            final(self).wf(),
            final(self)@ == old(self)@.with_approval(approval@).asked_at(now),
            readiness == old(self)@.with_approval(approval@).readiness(now),
    {
        if !self.has_approval_of(&approval.account_id) {
            let stake = self.account_id_to_stake.stake_of(&approval.account_id);
            proof {
                let before = self@;
                let account = approval.account_id@;
                lemma_stake_sum_insert(before.stakes, before.witness.dom(), account);
                lemma_endorsers_insert(before.witness, account, approval@);
                let after = before.with_approval(approval@);
                assert(after.witness.dom() =~= before.witness.dom().insert(account));
                lemma_stake_sum_at_most_total(before.stakes, after.witness.dom());
                lemma_stake_sum_at_most_total(before.stakes, endorsers(after.witness));
                if approval@.is_endorsement {
                    lemma_stake_sum_insert(before.stakes, endorsers(before.witness), account);
                }
                lemma_pairs_map_push(self.pairs(), account, approval@);
            }
            self.witness.push(approval.clone());
            self.approved_stake = self.approved_stake + stake;
            if approval.is_endorsement {
                self.endorsed_stake = self.endorsed_stake + stake;
            }
            proof {
                assert(self.pairs() =~= old(self).pairs().push((approval.account_id@, approval@)));
                assert(self@ =~= old(self)@.with_approval(approval@));
            }
        }
        // Asking for the readiness starts the timer for block production if the number of
        // approvals crossed the threshold.
        self.get_block_production_readiness(now)
    }

    /// Returns whether the block is ready to be produced without waiting for any extra time, has
    /// crossed the doomslug threshold (and thus can be produced given enough time passed), or is
    /// not ready to be produced at all. Only returns `ReadyToProduce` if the block has 2/3
    /// approvals and 1/2 endorsements; the readiness due to enough time passing since crossing the
    /// threshold is for the caller to handle.
    pub fn get_block_production_readiness(&mut self, now: Instant) -> (readiness:
        DoomslugBlockProductionReadiness)
        requires
            old(self).wf(),
            old(self)@.total_stake() * 2 <= u128::MAX,
        ensures
            final(self).wf(),
            final(self)@ == old(self)@.asked_at(now),
            readiness == old(self)@.readiness(now),
    {
        proof {
            if self.witness.len() > 0 {
                lemma_pair_in_map(self.pairs(), 0);
                if self@.witness.dom().len() == 0 {
                    assert(self@.witness.dom() =~= Set::empty());
                }
            } else {
                assert(self@.witness.dom() =~= Set::empty());
            }
        }
        if self.approved_stake > self.total_stake * 2 / 3 && self.endorsed_stake > self.total_stake
            / 2 {
            DoomslugBlockProductionReadiness::ReadyToProduce
        } else if self.approved_stake > self.total_stake / 2 || self.threshold_mode
            == DoomslugThresholdMode::SingleApproval && self.witness.len() > 0 {
            let time = match self.time_passed_threshold {
                Some(time) => time,
                None => now,
            };
            self.time_passed_threshold = Some(time);
            DoomslugBlockProductionReadiness::PassedThreshold(time)
        } else {
            DoomslugBlockProductionReadiness::NotReady
        }
    }

    /// The approvals at hand.
    pub fn approvals(&self) -> (approvals: &Vec<Approval>)
        requires
            self.wf(),
        ensures
            lists(approval_views(approvals@), self@.witness),
    {
        &self.witness
    }

    /// Gives the approvals away.
    pub fn into_approvals(self) -> (approvals: Vec<Approval>)
        requires
            self.wf(),
        ensures
            lists(approval_views(approvals@), self@.witness),
    {
        self.witness
    }

    /// The stakes that the approvals are weighed by.
    pub fn stakes(&self) -> (stakes: &StakeMap)
        requires
            self.wf(),
        ensures
            stakes.wf(),
            stakes@ == self@.stakes,
    {
        &self.account_id_to_stake
    }
}

} // verus!

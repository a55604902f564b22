//! All the logic of Doomslug, with no integration with chain or storage.
use crate::approval::{optional_hash, Approval, ApprovalView};
use crate::assoc::{
    at_key, distinct_keys, lemma_pair_in_map, lemma_pairs_map_finite, lemma_pairs_map_push,
    lemma_pairs_map_remove, lemma_pairs_map_update, pairs_map,
};
use crate::signer::Signer;
use crate::stake::{
    approval_views, approvals_stake, endorsements_stake, endorsers, lemma_listed_stake,
    lemma_next_stake, lemma_prefix_stake, lemma_stake_sum_at_most_total, lists, total_stake,
    validator_pairs, StakeMap,
};
use crate::time::{Duration, Instant};
use crate::timer::DoomslugTimer;
use crate::tracker::{
    DoomslugApprovalsTracker, DoomslugBlockProductionReadiness, DoomslugThresholdMode, TrackerView,
};
use crate::types::{AccountId, Balance, BlockHeight, CryptoHash, ValidatorStake};
use std::sync::Arc;
use vstd::prelude::*;

verus! {

/// Have that many iterations in the timer instead of `loop` to prevent potential bugs from
/// blocking the node.
pub const MAX_TIMER_ITERS: usize = 20;

/// What Doomslug knows of the chain tip.
pub struct TipView {
    pub block_hash: Seq<u8>,
    pub reference_hash: Option<Seq<u8>>,
    pub height: BlockHeight,
}

/// The state of a participant.
#[verifier::ext_equal]
pub struct DoomslugView {
    pub me: Option<Seq<char>>,
    pub key_pair: Option<Seq<u8>>,
    /// The approvals that came in, by the hash of the block that they approve and the height of
    /// the block that they are for.
    pub approval_tracking: Map<(Seq<u8>, BlockHeight), TrackerView>,
    pub largest_promised_skip_height: BlockHeight,
    pub largest_endorsed_height: BlockHeight,
    pub largest_ds_final_height: BlockHeight,
    pub largest_threshold_height: BlockHeight,
    pub tip: TipView,
    pub timer: DoomslugTimer,
    pub threshold_mode: DoomslugThresholdMode,
}

/// A tracker that came about by approvals for the block `key.0` at the height `key.1`: it holds at
/// least one, all are for that block, and if they pass the threshold, that has been noted.
pub open spec fn tracks(tracker: TrackerView, key: (Seq<u8>, BlockHeight)) -> bool {
    &&& tracker.wf()
    &&& tracker.total_stake() * 2 <= u128::MAX
    &&& tracker.witness.dom().len() > 0
    &&& forall|account: Seq<char>| #[trigger]
        tracker.witness.dom().contains(account) ==> tracker.witness[account].parent_hash == key.0
            && tracker.witness[account].target_height == key.1
    &&& tracker.is_past_threshold() && !tracker.is_ready() ==> tracker.time_passed_threshold is Some
}

impl DoomslugView {
    pub open spec fn wf(self) -> bool {
        &&& self.me is Some <==> self.key_pair is Some
        &&& forall|key: (Seq<u8>, BlockHeight)| #[trigger]
            self.approval_tracking.dom().contains(key) ==> tracks(self.approval_tracking[key], key)
                && self.approval_tracking[key].threshold_mode == self.threshold_mode && (
            self.approval_tracking[key].is_ready()
                || self.approval_tracking[key].is_past_threshold() ==> key.1
                <= self.largest_threshold_height)
    }

    /// The approval of the tip that the participant sends, if it takes part.
    pub open spec fn approval(
        self,
        target_height: BlockHeight,
        is_endorsement: bool,
    ) -> Option<ApprovalView> {
        match (self.me, self.key_pair) {
            (Some(me), Some(key_pair)) => Some(
                ApprovalView::signed(
                    self.tip.block_hash,
                    self.tip.reference_hash,
                    target_height,
                    is_endorsement,
                    key_pair,
                    me,
                ),
            ),
            _ => None,
        }
    }

    /// A block at `height` can be endorsed: the participant has neither promised to skip that
    /// height or a larger one, nor endorsed it or a larger one.
    pub open spec fn can_endorse(self, height: BlockHeight) -> bool {
        height > self.largest_promised_skip_height && height > self.largest_endorsed_height
    }

    /// The state once the tip has moved.
    pub open spec fn with_tip(
        self,
        now: Instant,
        tip: TipView,
        last_ds_final_height: BlockHeight,
    ) -> DoomslugView {
        DoomslugView {
            tip,
            largest_ds_final_height: if last_ds_final_height > self.largest_ds_final_height {
                last_ds_final_height
            } else {
                self.largest_ds_final_height
            },
            timer: DoomslugTimer {
                height: (tip.height + 1) as BlockHeight,
                started: now,
                ..self.timer
            },
            largest_endorsed_height: if self.can_endorse(tip.height) {
                tip.height
            } else {
                self.largest_endorsed_height
            },
            ..self
        }
    }

    /// How many heights the timer is ahead of the last block with doomslug finality.
    pub open spec fn heights_since_final(self) -> nat {
        if self.timer.height > self.largest_ds_final_height {
            (self.timer.height - self.largest_ds_final_height) as nat
        } else {
            0
        }
    }

    /// For how long the timer runs, in nanoseconds.
    pub open spec fn delay(self) -> nat {
        self.timer.delay(self.heights_since_final())
    }

    pub open spec fn delay_fits(self) -> bool {
        self.timer.delay_fits(self.heights_since_final())
    }

    /// The timer has run out by `cur_time`.
    pub open spec fn timer_due(self, cur_time: Instant) -> bool {
        cur_time.nanos >= self.timer.started.nanos + self.delay()
    }

    /// The height of the timer is one that the participant skips when the timer runs out.
    pub open spec fn skips(self) -> bool {
        self.timer.height > self.largest_endorsed_height && self.timer.height > self.tip.height
    }

    /// The state once the timer has run out and started again for the next height.
    pub open spec fn timer_step(self) -> DoomslugView {
        DoomslugView {
            largest_promised_skip_height: if self.skips() && self.timer.height
                > self.largest_promised_skip_height {
                self.timer.height
            } else {
                self.largest_promised_skip_height
            },
            timer: DoomslugTimer {
                started: Instant { nanos: (self.timer.started.nanos + self.delay()) as u128 },
                height: (self.timer.height + 1) as BlockHeight,
                ..self.timer
            },
            ..self
        }
    }

    /// The skip message that is sent when the timer runs out, if there is one.
    pub open spec fn timer_message(self) -> Seq<ApprovalView> {
        match self.approval((self.timer.height + 1) as BlockHeight, false) {
            Some(approval) if self.skips() => seq![approval],
            _ => Seq::empty(),
        }
    }

    /// The state once the timer has run out as often as it does by `cur_time`, but at most `iters`
    /// times.
    pub open spec fn after_timer(self, cur_time: Instant, iters: nat) -> DoomslugView
        decreases iters,
    {
        if iters > 0 && self.timer_due(cur_time) {
            self.timer_step().after_timer(cur_time, (iters - 1) as nat)
        } else {
            self
        }
    }

    /// The skip messages that are sent meanwhile.
    pub open spec fn timer_messages(self, cur_time: Instant, iters: nat) -> Seq<ApprovalView>
        decreases iters,
    {
        if iters > 0 && self.timer_due(cur_time) {
            self.timer_message() + self.timer_step().timer_messages(cur_time, (iters - 1) as nat)
        } else {
            Seq::empty()
        }
    }

    /// Every time and height that comes up meanwhile can be represented.
    pub open spec fn timer_fits(self, cur_time: Instant, iters: nat) -> bool
        decreases iters,
    {
        iters > 0 ==> {
            &&& self.delay_fits()
            &&& self.timer.started.nanos + self.delay() <= u128::MAX
            &&& self.timer_due(cur_time) ==> {
                &&& self.timer.height < BlockHeight::MAX
                &&& self.timer_step().timer_fits(cur_time, (iters - 1) as nat)
            }
        }
    }

    /// The tracker that an approval of `key.0` for the height `key.1` goes to.
    pub open spec fn tracker(
        self,
        key: (Seq<u8>, BlockHeight),
        stakes: Map<Seq<char>, Balance>,
    ) -> TrackerView {
        if self.approval_tracking.dom().contains(key) {
            self.approval_tracking[key]
        } else {
            TrackerView::fresh(stakes, self.threshold_mode)
        }
    }

    /// The tracker of the approved block with the approval added.
    pub open spec fn tracker_with(
        self,
        approval: ApprovalView,
        stakes: Map<Seq<char>, Balance>,
    ) -> TrackerView {
        self.tracker((approval.parent_hash, approval.target_height), stakes).with_approval(approval)
    }

    /// The state once an approval has come in.
    pub open spec fn with_approval(
        self,
        now: Instant,
        approval: ApprovalView,
        stakes: Map<Seq<char>, Balance>,
    ) -> DoomslugView {
        let tracker = self.tracker_with(approval, stakes);
        let passed = tracker.readiness(now) != DoomslugBlockProductionReadiness::NotReady;
        DoomslugView {
            approval_tracking: self.approval_tracking.insert(
                (approval.parent_hash, approval.target_height),
                tracker.asked_at(now),
            ),
            largest_threshold_height: if passed && approval.target_height
                > self.largest_threshold_height {
                approval.target_height
            } else {
                self.largest_threshold_height
            },
            ..self
        }
    }

    /// The approvals of `prev_hash` for a block at `target_height`, by account.
    pub open spec fn witness(
        self,
        prev_hash: Seq<u8>,
        target_height: BlockHeight,
    ) -> Map<Seq<char>, ApprovalView> {
        if self.approval_tracking.dom().contains((prev_hash, target_height)) {
            self.approval_tracking[(prev_hash, target_height)].witness
        } else {
            Map::empty()
        }
    }

    /// The endorsements of `prev_hash` for a block at `target_height` have more than half of the
    /// stake behind them.
    pub open spec fn is_prev_block_ds_final(
        self,
        prev_hash: Seq<u8>,
        target_height: BlockHeight,
    ) -> bool {
        let key = (prev_hash, target_height);
        &&& self.approval_tracking.dom().contains(key)
        &&& self.approval_tracking[key].endorsed_stake()
            > self.approval_tracking[key].total_stake() / 2
    }

    /// The state without the approvals of `prev_hash` for a block at `target_height`.
    pub open spec fn without_witness(
        self,
        prev_hash: Seq<u8>,
        target_height: BlockHeight,
    ) -> DoomslugView {
        DoomslugView {
            approval_tracking: self.approval_tracking.remove((prev_hash, target_height)),
            ..self
        }
    }

    /// A block at `target_height` on top of the tip can be produced at `now`: it is ready, or it
    /// has passed the threshold more than half of the timer's delay ago.
    pub open spec fn ready_to_produce(self, now: Instant, target_height: BlockHeight) -> bool {
        let key = (self.tip.block_hash, target_height);
        &&& self.approval_tracking.dom().contains(key)
        &&& match self.approval_tracking[key].readiness(now) {
            DoomslugBlockProductionReadiness::NotReady => false,
            DoomslugBlockProductionReadiness::PassedThreshold(when) => now.nanos > when.nanos
                + self.delay() / 2,
            DoomslugBlockProductionReadiness::ReadyToProduce => true,
        }
    }

    /// If that depends on the time, the time from which on it can be produced can be represented.
    pub open spec fn production_time_fits(self, now: Instant, target_height: BlockHeight) -> bool {
        let key = (self.tip.block_hash, target_height);
        self.approval_tracking.dom().contains(key) ==> match self.approval_tracking[key].readiness(
            now,
        ) {
            DoomslugBlockProductionReadiness::PassedThreshold(when) => self.delay_fits()
                && when.nanos + self.delay() / 2 <= u128::MAX,
            _ => true,
        }
    }
}

/// An approval leaves the state well-formed.
pub proof fn lemma_with_approval_wf(
    state: DoomslugView,
    now: Instant,
    approval: ApprovalView,
    stakes: Map<Seq<char>, Balance>,
)
    requires
        state.wf(),
        !state.approval_tracking.dom().contains((approval.parent_hash, approval.target_height))
            ==> stakes.dom().finite() && total_stake(stakes) * 2 <= u128::MAX,
    ensures
        state.with_approval(now, approval, stakes).wf(),
{
    let key = (approval.parent_hash, approval.target_height);
    let tracker = state.tracker_with(approval, stakes);
    assert(tracker.witness.dom().contains(approval.account_id));
    assert(tracker.witness.dom().len() > 0) by {
        if tracker.witness.dom().len() == 0 {
            assert(tracker.witness.dom() =~= Set::empty());
        }
    }
    assert(tracks(tracker.asked_at(now), key));
}

/// Enough of the stake endorses: more than half of the total, where an account that occurs more
/// than once among the approvals counts as often as it occurs.
pub open spec fn approved_block_ds_final(
    approvals: Seq<ApprovalView>,
    stakes: Map<Seq<char>, Balance>,
) -> bool {
    endorsements_stake(approvals, stakes) > total_stake(stakes) / 2
}

/// Enough of the stake approves: any approval at all will do with `SingleApproval`, and more than
/// half of the total stake with `HalfStake`.
pub open spec fn approved_block_can_be_produced(
    mode: DoomslugThresholdMode,
    approvals: Seq<ApprovalView>,
    stakes: Map<Seq<char>, Balance>,
) -> bool {
    match mode {
        DoomslugThresholdMode::SingleApproval => approvals.len() > 0,
        DoomslugThresholdMode::HalfStake => approvals_stake(approvals, stakes) > total_stake(stakes)
            / 2,
    }
}

/// Information that Doomslug tracks about the chain tip.
struct DoomslugTip {
    block_hash: CryptoHash,
    reference_hash: Option<CryptoHash>,
    height: BlockHeight,
}

/// A participant in Doomslug.
pub struct Doomslug {
    me: Option<AccountId>,
    approval_tracking: Vec<((CryptoHash, BlockHeight), DoomslugApprovalsTracker)>,
    /// Largest height that we promised to skip.
    largest_promised_skip_height: BlockHeight,
    /// Largest height that we endorsed.
    largest_endorsed_height: BlockHeight,
    /// Largest height for which we saw a block containing 1/2 endorsements in it.
    largest_ds_final_height: BlockHeight,
    /// Largest height for which we saw threshold approvals (and thus can potentially create a
    /// block).
    largest_threshold_height: BlockHeight,
    /// Information Doomslug tracks about the chain tip.
    tip: DoomslugTip,
    /// Information to track the timer (see `start_timer` routine in the paper).
    timer: DoomslugTimer,
    signer: Option<Arc<Signer>>,
    /// How many approvals to have before producing a block. In production should be always
    /// `HalfStake`, but for many tests we use `SingleApproval` to invoke more forkfulness.
    threshold_mode: DoomslugThresholdMode,
}

pub open spec fn optional_account(account: Option<AccountId>) -> Option<Seq<char>> {
    match account {
        Some(account) => Some(account@),
        None => None,
    }
}

pub open spec fn optional_key_pair(signer: Option<Arc<Signer>>) -> Option<Seq<u8>> {
    match signer {
        Some(signer) => Some(signer.key_pair()),
        None => None,
    }
}

impl View for Doomslug {
    type V = DoomslugView;

    closed spec fn view(&self) -> DoomslugView {
        DoomslugView {
            me: optional_account(self.me),
            key_pair: optional_key_pair(self.signer),
            approval_tracking: pairs_map(self.pairs()),
            largest_promised_skip_height: self.largest_promised_skip_height,
            largest_endorsed_height: self.largest_endorsed_height,
            largest_ds_final_height: self.largest_ds_final_height,
            largest_threshold_height: self.largest_threshold_height,
            tip: TipView {
                block_hash: self.tip.block_hash@,
                reference_hash: optional_hash(self.tip.reference_hash),
                height: self.tip.height,
            },
            timer: self.timer,
            threshold_mode: self.threshold_mode,
        }
    }
}

impl Doomslug {
    closed spec fn pairs(&self) -> Seq<((Seq<u8>, BlockHeight), TrackerView)> {
        Seq::new(
            self.approval_tracking.len() as nat,
            |i: int|
                (
                    (self.approval_tracking[i].0.0@, self.approval_tracking[i].0.1),
                    self.approval_tracking[i].1@,
                ),
        )
    }

    /// Each block is tracked once, and each tracker is well-formed.
    pub closed spec fn tracks_each_block_once(&self) -> bool {
        &&& distinct_keys(self.pairs())
        &&& forall|i: int|
            0 <= i < self.approval_tracking.len() ==> (#[trigger] self.approval_tracking[i]).1.wf()
    }

    /// The fields are consistent, and so is what they say.
    pub open spec fn wf(&self) -> bool {
        self.tracks_each_block_once() && self@.wf()
    }

    /// A participant that has not seen a block yet, and that has promised to skip and has endorsed
    /// the given heights in an earlier life. It takes part under the name `me`, with `signer`; both
    /// are given or neither. The timer starts at `now`.
    pub fn new(
        me: Option<AccountId>,
        largest_previously_skipped_height: BlockHeight,
        largest_previously_endorsed_height: BlockHeight,
        min_delay: Duration,
        delay_step: Duration,
        max_delay: Duration,
        signer: Option<Arc<Signer>>,
        threshold_mode: DoomslugThresholdMode,
        now: Instant,
    ) -> (doomslug: Doomslug)
        requires
            me is Some <==> signer is Some,
        ensures
            doomslug.wf(),
            doomslug@ == (DoomslugView {
                me: optional_account(me),
                key_pair: optional_key_pair(signer),
                approval_tracking: Map::empty(),
                largest_promised_skip_height: largest_previously_skipped_height,
                largest_endorsed_height: largest_previously_endorsed_height,
                largest_ds_final_height: 0,
                largest_threshold_height: 0,
                tip: TipView {
                    block_hash: Seq::new(32, |i: int| 0u8),
                    reference_hash: None,
                    height: 0,
                },
                timer: DoomslugTimer { started: now, height: 0, min_delay, delay_step, max_delay },
                threshold_mode,
            }),
    {
        let doomslug = Doomslug {
            me,
            approval_tracking: Vec::new(),
            largest_promised_skip_height: largest_previously_skipped_height,
            largest_endorsed_height: largest_previously_endorsed_height,
            largest_ds_final_height: 0,
            largest_threshold_height: 0,
            tip: DoomslugTip { block_hash: CryptoHash::default(), reference_hash: None, height: 0 },
            timer: DoomslugTimer { started: now, height: 0, min_delay, delay_step, max_delay },
            signer,
            threshold_mode,
        };
        assert(doomslug@.approval_tracking =~= Map::empty());
        doomslug
    }

    /// Is expected to be called periodically and processes the timer (`start_timer` in the paper).
    /// If `cur_time` is way ahead of the last time that this was called, will only process a
    /// bounded number of steps, to avoid an infinite loop in case of some bugs. Processes sending
    /// skip messages, and returns the approvals that need to be sent to other block producers.
    #[must_use]
    pub fn process_timer(&mut self, cur_time: Instant) -> (approvals: Vec<Approval>)
        requires
            old(self).wf(),
            old(self)@.timer_fits(cur_time, MAX_TIMER_ITERS as nat),
        ensures
            final(self).wf(),
            final(self)@ == old(self)@.after_timer(cur_time, MAX_TIMER_ITERS as nat),
            approval_views(approvals@) == old(self)@.timer_messages(
                cur_time,
                MAX_TIMER_ITERS as nat,
            ),
    {
        let mut approvals: Vec<Approval> = Vec::new();
        let mut i: usize = 0;
        let ghost state = self@.after_timer(cur_time, MAX_TIMER_ITERS as nat);
        let ghost messages = self@.timer_messages(cur_time, MAX_TIMER_ITERS as nat);
        assert(approval_views(approvals@) =~= Seq::empty());
        assert(messages =~= approval_views(approvals@) + messages);
        while i < MAX_TIMER_ITERS
            invariant
                self.wf(),
                i <= MAX_TIMER_ITERS,
                self@.timer_fits(cur_time, (MAX_TIMER_ITERS - i) as nat),
                state == self@.after_timer(cur_time, (MAX_TIMER_ITERS - i) as nat),
                messages == approval_views(approvals@) + self@.timer_messages(
                    cur_time,
                    (MAX_TIMER_ITERS - i) as nat,
                ),
                state == old(self)@.after_timer(cur_time, MAX_TIMER_ITERS as nat),
                messages == old(self)@.timer_messages(cur_time, MAX_TIMER_ITERS as nat),
            decreases MAX_TIMER_ITERS - i,
        {
            let ghost before = self@;
            let delay = self.timer.get_delay(
                self.timer.height.saturating_sub(self.largest_ds_final_height),
            );
            let deadline = self.timer.started + delay;
            if cur_time.nanos < deadline.nanos {
                assert(approval_views(approvals@) + Seq::empty() =~= approval_views(approvals@));
                return approvals;
            }
            if self.timer.height > self.largest_endorsed_height && self.timer.height
                > self.tip.height {
                if self.timer.height > self.largest_promised_skip_height {
                    self.largest_promised_skip_height = self.timer.height;
                }
                if let Some(approval) = self.create_approval(self.timer.height + 1, false) {
                    let ghost sent = approval_views(approvals@);
                    approvals.push(approval);
                    assert(approval_views(approvals@) =~= sent + before.timer_message());
                }
            }
            // Restart the timer.
            self.timer.started = deadline;
            self.timer.height = self.timer.height + 1;
            i += 1;
            proof {
                assert(self@ =~= before.timer_step());
                let rest = self@.timer_messages(cur_time, (MAX_TIMER_ITERS - i) as nat);
                assert(messages =~= approval_views(approvals@) + rest);
            }
        }
        assert(approval_views(approvals@) + Seq::empty() =~= approval_views(approvals@));
        approvals
    }

    /// The approval of the tip for a block at `target_height`, if the participant has a name to
    /// sign it with.
    pub fn create_approval(
        &self,
        target_height: BlockHeight,
        is_endorsement: bool,
    ) -> (approval: Option<Approval>)
        requires
            self.wf(),
        ensures
            approval is Some <==> self@.me is Some,
            approval matches Some(approval) ==> Some(approval@) == self@.approval(
                target_height,
                is_endorsement,
            ),
    {
        match (&self.me, &self.signer) {
            (Some(me), Some(signer)) => Some(
                Approval::new(
                    self.tip.block_hash,
                    self.tip.reference_hash,
                    target_height,
                    is_endorsement,
                    &**signer,
                    me.clone(),
                ),
            ),
            _ => None,
        }
    }

    /// Determines whether a block that precedes the block containing approvals has doomslug
    /// finality, i.e. if the sum of stakes of block producers who produced endorsements (approvals
    /// with `is_endorsement = true`) exceeds half of the total stake.
    ///
    /// The approvals are expected to have been deduplicated: of each account there should be at
    /// most one. Nothing here takes care of that, and a duplicate is counted again.
    pub fn is_approved_block_ds_final(
        approvals: &Vec<Approval>,
        account_id_to_stake: &StakeMap,
    ) -> (ds_final: bool)
        requires
            account_id_to_stake.wf(),
            total_stake(account_id_to_stake@) <= u128::MAX,
            endorsements_stake(approval_views(approvals@), account_id_to_stake@) <= u128::MAX,
        ensures
            ds_final == approved_block_ds_final(
                approval_views(approvals@),
                account_id_to_stake@,
            ),
    {
        let threshold = account_id_to_stake.total() / 2;
        let ghost views = approval_views(approvals@);
        let ghost stakes = account_id_to_stake@;
        let mut endorsed_stake: Balance = 0;
        let mut i: usize = 0;
        assert(endorsements_stake(views.take(0), stakes) == 0) by {
            reveal(Seq::filter);
        }
        while i < approvals.len()
            invariant
                account_id_to_stake.wf(),
                views == approval_views(approvals@),
                stakes == account_id_to_stake@,
                endorsements_stake(views, stakes) <= u128::MAX,
                i <= approvals.len(),
                endorsed_stake == endorsements_stake(views.take(i as int), stakes),
            decreases approvals.len() - i,
        {
            proof {
                lemma_next_stake(views, stakes, i as int);
                lemma_prefix_stake(views, stakes, i + 1);
            }
            if approvals[i].is_endorsement {
                endorsed_stake = endorsed_stake + account_id_to_stake.stake_of(
                    &approvals[i].account_id,
                );
            }
            i += 1;
        }
        assert(views.take(i as int) =~= views);
        endorsed_stake > threshold
    }

    /// Determines whether the block `prev_hash` has doomslug finality from the perspective of a
    /// block that has it as its previous, and is at height `target_height`.
    pub fn is_prev_block_ds_final(
        &self,
        prev_hash: CryptoHash,
        target_height: BlockHeight,
    ) -> (ds_final: bool)
        requires
            self.wf(),
        ensures
            ds_final == self@.is_prev_block_ds_final(prev_hash@, target_height),
    {
        match self.position(&prev_hash, target_height) {
            None => false,
            Some(i) => {
                let tracker = &self.approval_tracking[i].1;
                let approvals = tracker.approvals();
                let stakes = tracker.stakes();
                proof {
                    lemma_pair_in_map(self.pairs(), i as int);
                    let known = tracker@;
                    lemma_listed_stake(approval_views(approvals@), known.witness, known.stakes);
                    lemma_stake_sum_at_most_total(known.stakes, endorsers(known.witness));
                }
                Doomslug::is_approved_block_ds_final(approvals, stakes)
            },
        }
    }

    /// Determines whether a block has enough approvals to be produced. In production (with `mode
    /// == HalfStake`) we require the total stake of all the approvals to be strictly more than
    /// half of the total stake. For many non-doomslug specific tests (with `mode ==
    /// SingleApproval`) just one approval is sufficient.
    pub fn can_approved_block_be_produced(
        mode: DoomslugThresholdMode,
        approvals: &Vec<Approval>,
        account_id_to_stake: &StakeMap,
    ) -> (enough: bool)
        requires
            account_id_to_stake.wf(),
            mode == DoomslugThresholdMode::HalfStake ==> total_stake(account_id_to_stake@)
                <= u128::MAX && approvals_stake(approval_views(approvals@), account_id_to_stake@)
                <= u128::MAX,
        ensures
            enough == approved_block_can_be_produced(
                mode,
                approval_views(approvals@),
                account_id_to_stake@,
            ),
    {
        if mode == DoomslugThresholdMode::SingleApproval {
            return approvals.len() > 0;
        }
        let threshold = account_id_to_stake.total() / 2;
        let ghost views = approval_views(approvals@);
        let ghost stakes = account_id_to_stake@;
        let mut approved_stake: Balance = 0;
        let mut i: usize = 0;
        while i < approvals.len()
            invariant
                account_id_to_stake.wf(),
                views == approval_views(approvals@),
                stakes == account_id_to_stake@,
                approvals_stake(views, stakes) <= u128::MAX,
                i <= approvals.len(),
                approved_stake == approvals_stake(views.take(i as int), stakes),
            decreases approvals.len() - i,
        {
            proof {
                lemma_next_stake(views, stakes, i as int);
                lemma_prefix_stake(views, stakes, i + 1);
            }
            approved_stake = approved_stake + account_id_to_stake.stake_of(
                &approvals[i].account_id,
            );
            i += 1;
        }
        assert(views.take(i as int) =~= views);
        approved_stake > threshold
    }

    /// Forgets the approvals of `prev_hash` for a block at `target_height`, and returns them.
    pub fn remove_witness(
        &mut self,
        prev_hash: CryptoHash,
        target_height: BlockHeight,
    ) -> (approvals: Vec<Approval>)
        requires
            old(self).wf(),
        ensures
            final(self).wf(),
            final(self)@ == old(self)@.without_witness(prev_hash@, target_height),
            lists(
                approval_views(approvals@),
                old(self)@.witness(prev_hash@, target_height),
            ),
    {
        match self.position(&prev_hash, target_height) {
            None => {
                let approvals: Vec<Approval> = Vec::new();
                proof {
                    assert(pairs_map(crate::stake::by_account(approval_views(approvals@)))
                        =~= Map::empty());
                    assert(self@.approval_tracking =~= self@.without_witness(
                        prev_hash@,
                        target_height,
                    ).approval_tracking);
                }
                approvals
            },
            Some(i) => {
                proof {
                    lemma_pair_in_map(self.pairs(), i as int);
                    lemma_pairs_map_remove(self.pairs(), i as int);
                }
                let (_, tracker) = self.approval_tracking.remove(i);
                proof {
                    assert(self.pairs() =~= old(self).pairs().remove(i as int));
                    assert(self@ =~= old(self)@.without_witness(prev_hash@, target_height));
                    assert(tracker@ == old(self).pairs()[i as int].1);
                }
                tracker.into_approvals()
            },
        }
    }

    /// Updates the current tip of the chain. Restarts the timer accordingly. If the tip can be
    /// endorsed, produces the endorsement, otherwise a non-endorsing approval.
    ///
    /// `reference_hash` is expected to come from the finality gadget, and goes into the approvals
    /// being sent for this tip (whether endorsements or skip messages). `last_ds_final_height` is
    /// the last height at which a block in this chain has doomslug finality; if a larger one was
    /// given before, that one is kept.
    #[must_use]
    pub fn set_tip(
        &mut self,
        now: Instant,
        block_hash: CryptoHash,
        reference_hash: Option<CryptoHash>,
        height: BlockHeight,
        last_ds_final_height: BlockHeight,
    ) -> (approval: Option<Approval>)
        requires
            old(self).wf(),
            height < BlockHeight::MAX,
        ensures
            final(self).wf(),
            final(self)@ == old(self)@.with_tip(
                now,
                (TipView {
                    block_hash: block_hash@,
                    reference_hash: optional_hash(reference_hash),
                    height,
                }),
                last_ds_final_height,
            ),
            approval is Some <==> old(self)@.me is Some,
            approval matches Some(approval) ==> Some(approval@) == final(self)@.approval(
                (height + 1) as BlockHeight,
                old(self)@.can_endorse(height),
            ),
            approval matches Some(approval) ==> (approval.is_endorsement <==> height > old(
                self,
            )@.largest_promised_skip_height && height > old(self)@.largest_endorsed_height),
    {
        self.tip = DoomslugTip { block_hash, reference_hash, height };
        if last_ds_final_height > self.largest_ds_final_height {
            self.largest_ds_final_height = last_ds_final_height;
        }
        self.timer.height = height + 1;
        self.timer.started = now;
        let is_endorsement = height > self.largest_promised_skip_height && height
            > self.largest_endorsed_height;
        if is_endorsement {
            self.largest_endorsed_height = height;
        }
        self.create_approval(height + 1, is_endorsement)
    }

    /// Whether there are approvals of `prev_hash` for a block at `target_height`.
    pub fn has_approvals(&self, prev_hash: CryptoHash, target_height: BlockHeight) -> (found: bool)
        ensures
            found == self@.approval_tracking.dom().contains((prev_hash@, target_height)),
    {
        self.position(&prev_hash, target_height).is_some()
    }

    /// Where the approvals of `prev_hash` for a block at `target_height` are tracked.
    fn position(&self, prev_hash: &CryptoHash, target_height: BlockHeight) -> (position: Option<
        usize,
    >)
        ensures
            position is Some <==> self@.approval_tracking.dom().contains(
                (prev_hash@, target_height),
            ),
            position matches Some(i) ==> i < self.approval_tracking.len() && self.pairs()[i as int].0
                == (prev_hash@, target_height),
    {
        let ghost key = (prev_hash@, target_height);
        let mut i: usize = 0;
        while i < self.approval_tracking.len()
            invariant
                key == (prev_hash@, target_height),
                i <= self.approval_tracking.len(),
                forall|j: int| 0 <= j < i ==> (#[trigger] self.pairs()[j]).0 != key,
            decreases self.approval_tracking.len() - i,
        {
            if self.approval_tracking[i].0.0 == *prev_hash && self.approval_tracking[i].0.1
                == target_height {
                proof {
                    assert(at_key(self.pairs(), key, i as int));
                }
                return Some(i);
            }
            i += 1;
        }
        proof {
            if self@.approval_tracking.dom().contains(key) {
                let j = choose|j: int| at_key(self.pairs(), key, j);
                assert(self.pairs()[j].0 != key);
            }
        }
        None
    }

    /// Records an approval message, and returns whether the block has passed the threshold / is
    /// ready to be produced without waiting any further. The stakes matter for the first approval
    /// of a block only.
    #[must_use]
    pub fn on_approval_message_internal(
        &mut self,
        now: Instant,
        approval: &Approval,
        stakes: &Vec<ValidatorStake>,
    ) -> (readiness: DoomslugBlockProductionReadiness)
        requires
            old(self).wf(),
            !old(self)@.approval_tracking.dom().contains(
                (approval@.parent_hash, approval@.target_height),
            ) ==> distinct_keys(validator_pairs(stakes@)) && total_stake(
                pairs_map(validator_pairs(stakes@)),
            ) * 2 <= u128::MAX,
        ensures
            final(self).wf(),
            final(self)@ == old(self)@.with_approval(
                now,
                approval@,
                pairs_map(validator_pairs(stakes@)),
            ),
            readiness == old(self)@.tracker_with(
                approval@,
                pairs_map(validator_pairs(stakes@)),
            ).readiness(now),
    {
        let ghost key = (approval@.parent_hash, approval@.target_height);
        let ghost validators = pairs_map(validator_pairs(stakes@));
        let readiness = match self.position(&approval.parent_hash, approval.target_height) {
            Some(i) => {
                proof {
                    lemma_pair_in_map(self.pairs(), i as int);
                }
                let readiness = self.approval_tracking[i].1.process_approval(now, approval);
                proof {
                    let tracker = self.approval_tracking[i as int].1@;
                    lemma_pairs_map_update(old(self).pairs(), i as int, tracker);
                    assert(self.pairs() =~= old(self).pairs().update(i as int, (key, tracker)));
                }
                readiness
            },
            None => {
                let mut tracker = DoomslugApprovalsTracker::new(stakes, self.threshold_mode);
                let readiness = tracker.process_approval(now, approval);
                let ghost known = tracker@;
                self.approval_tracking.push(
                    ((approval.parent_hash, approval.target_height), tracker),
                );
                proof {
                    lemma_pairs_map_push(old(self).pairs(), key, known);
                    assert(self.pairs() =~= old(self).pairs().push((key, known)));
                }
                readiness
            },
        };
        if readiness != DoomslugBlockProductionReadiness::NotReady {
            if approval.target_height > self.largest_threshold_height {
                self.largest_threshold_height = approval.target_height;
            }
        }
        proof {
            assert(self@ =~= old(self)@.with_approval(now, approval@, validators));
            lemma_pairs_map_finite(validator_pairs(stakes@));
            lemma_with_approval_wf(old(self)@, now, approval@, validators);
        }
        readiness
    }

    /// Processes a single approval.
    pub fn on_approval_message(
        &mut self,
        now: Instant,
        approval: &Approval,
        stakes: &Vec<ValidatorStake>,
    )
        requires
            old(self).wf(),
            !old(self)@.approval_tracking.dom().contains(
                (approval@.parent_hash, approval@.target_height),
            ) ==> distinct_keys(validator_pairs(stakes@)) && total_stake(
                pairs_map(validator_pairs(stakes@)),
            ) * 2 <= u128::MAX,
        ensures
            final(self).wf(),
            final(self)@ == old(self)@.with_approval(
                now,
                approval@,
                pairs_map(validator_pairs(stakes@)),
            ),
    {
        let _ = self.on_approval_message_internal(now, approval, stakes);
    }

    /// Determines whether a block at `target_height` on top of the tip can be produced: without
    /// waiting, or because enough time has passed since its approvals crossed the threshold.
    #[must_use]
    pub fn ready_to_produce_block(&mut self, now: Instant, target_height: BlockHeight) -> (ready:
        bool)
        requires
            old(self).wf(),
            old(self)@.production_time_fits(now, target_height),
        ensures
            final(self).wf(),
            final(self)@ == old(self)@,
            ready == old(self)@.ready_to_produce(now, target_height),
    {
        match self.position(&self.tip.block_hash, target_height) {
            None => false,
            Some(i) => {
                proof {
                    lemma_pair_in_map(self.pairs(), i as int);
                }
                let readiness = self.approval_tracking[i].1.get_block_production_readiness(now);
                proof {
                    assert(self.pairs() =~= old(self).pairs());
                    assert(self@ =~= old(self)@);
                }
                match readiness {
                    DoomslugBlockProductionReadiness::NotReady => false,
                    DoomslugBlockProductionReadiness::PassedThreshold(when) => {
                        let delay = self.timer.get_delay(
                            self.timer.height.saturating_sub(self.largest_ds_final_height),
                        );
                        let from = when + (Duration { nanos: delay.nanos / 2 });
                        now.nanos > from.nanos
                    },
                    DoomslugBlockProductionReadiness::ReadyToProduce => true,
                }
            },
        }
    }

    /// Returns the `(hash, height)` of the current tip.
    pub fn get_tip(&self) -> (tip: (CryptoHash, BlockHeight))
        ensures
            tip.0@ == self@.tip.block_hash,
            tip.1 == self@.tip.height,
    {
        (self.tip.block_hash, self.tip.height)
    }

    /// Returns the largest height for which we have enough approvals to be theoretically able to
    /// produce a block (in practice a block might not be produceable yet if not enough time passed
    /// since it accumulated enough approvals).
    pub fn get_largest_height_crossing_threshold(&self) -> (height: BlockHeight)
        ensures
            height == self@.largest_threshold_height,
    {
        self.largest_threshold_height
    }

    pub fn get_largest_height_with_doomslug_finality(&self) -> (height: BlockHeight)
        ensures
            height == self@.largest_ds_final_height,
    {
        self.largest_ds_final_height
    }

    pub fn get_largest_skipped_height(&self) -> (height: BlockHeight)
        ensures
            height == self@.largest_promised_skip_height,
    {
        self.largest_promised_skip_height
    }

    pub fn get_largest_endorsed_height(&self) -> (height: BlockHeight)
        ensures
            height == self@.largest_endorsed_height,
    {
        self.largest_endorsed_height
    }

    pub fn get_timer_height(&self) -> (height: BlockHeight)
        ensures
            height == self@.timer.height,
    {
        self.timer.height
    }

    pub fn get_timer_start(&self) -> (started: Instant)
        ensures
            started == self@.timer.started,
    {
        self.timer.started
    }
}

} // verus!

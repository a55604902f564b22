//! What holds of a participant whatever happens to it.
use crate::approval::ApprovalView;
use crate::doomslug::{
    approved_block_can_be_produced, approved_block_ds_final, lemma_with_approval_wf, DoomslugView,
    TipView,
};
use crate::stake::{
    endorsers, lemma_endorsers_insert, lemma_listed_stake, lemma_stake_sum_at_most_total,
    lemma_stake_sum_insert, lemma_stake_sum_subset, law_majorities_share_a_validator, lists,
    total_stake,
};
use crate::time::Instant;
use crate::timer::law_delay_grows_up_to_its_cap;
use crate::tracker::{DoomslugBlockProductionReadiness, TrackerView};
use crate::types::{Balance, BlockHeight};
use vstd::prelude::*;

verus! {

// What happens to a tracker.

/// Of each account only the first approval counts: another one from the same account, whatever it
/// says, changes nothing.
pub proof fn law_only_the_first_approval_counts(
    tracker: TrackerView,
    first: ApprovalView,
    second: ApprovalView,
)
    requires
        first.account_id == second.account_id,
    ensures
        tracker.with_approval(first).with_approval(second) == tracker.with_approval(first),
{
}

/// In which order the approvals of two accounts come in makes no difference.
pub proof fn law_order_of_approvals_does_not_matter(
    tracker: TrackerView,
    a: ApprovalView,
    b: ApprovalView,
)
    requires
        a.account_id != b.account_id,
    ensures
        tracker.with_approval(a).with_approval(b) == tracker.with_approval(b).with_approval(a),
{
    assert(tracker.with_approval(a).with_approval(b) =~= tracker.with_approval(b).with_approval(
        a,
    ));
}

/// The endorsed stake is part of the approved stake, which is part of the total stake; so a block
/// that is ready to be produced has passed the threshold too.
pub proof fn law_stakes_are_nested(tracker: TrackerView)
    requires
        tracker.wf(),
    ensures
        tracker.endorsed_stake() <= tracker.approved_stake() <= tracker.total_stake(),
        tracker.is_ready() ==> tracker.is_past_threshold(),
{
    lemma_stake_sum_subset(tracker.stakes, endorsers(tracker.witness), tracker.witness.dom());
    lemma_stake_sum_at_most_total(tracker.stakes, tracker.witness.dom());
}

/// An approval adds the stake of its sender to the approved stake, and if it is an endorsement,
/// to the endorsed stake; a sender that is no validator adds nothing.
pub proof fn law_an_approval_adds_its_senders_stake(tracker: TrackerView, approval: ApprovalView)
    requires
        tracker.wf(),
        !tracker.witness.dom().contains(approval.account_id),
    ensures
        tracker.with_approval(approval).approved_stake() == tracker.approved_stake()
            + crate::stake::stake_of(tracker.stakes, approval.account_id),
        tracker.with_approval(approval).endorsed_stake() == tracker.endorsed_stake() + if
        approval.is_endorsement {
            crate::stake::stake_of(tracker.stakes, approval.account_id)
        } else {
            0
        },
        tracker.with_approval(approval).total_stake() == tracker.total_stake(),
        !tracker.stakes.dom().contains(approval.account_id) ==> crate::stake::stake_of(
            tracker.stakes,
            approval.account_id,
        ) == 0,
{
    let account = approval.account_id;
    let more = tracker.with_approval(approval);
    assert(more.witness.dom() =~= tracker.witness.dom().insert(account));
    lemma_stake_sum_insert(tracker.stakes, tracker.witness.dom(), account);
    lemma_endorsers_insert(tracker.witness, account, approval);
    if approval.is_endorsement {
        lemma_stake_sum_insert(tracker.stakes, endorsers(tracker.witness), account);
    }
}

/// Further approvals never take back what a block has reached: one that is ready stays ready, and
/// one that has passed the threshold stays past it since the same time, or gets ready.
pub proof fn law_readiness_never_regresses(
    tracker: TrackerView,
    approval: ApprovalView,
    now: Instant,
    later: Instant,
)
    requires
        tracker.wf(),
    ensures
        ({
            let after = tracker.asked_at(now).with_approval(approval);
            match tracker.readiness(now) {
                DoomslugBlockProductionReadiness::ReadyToProduce => after.readiness(later)
                    == DoomslugBlockProductionReadiness::ReadyToProduce,
                DoomslugBlockProductionReadiness::PassedThreshold(when) => after.readiness(later)
                    == DoomslugBlockProductionReadiness::ReadyToProduce || after.readiness(later)
                    == DoomslugBlockProductionReadiness::PassedThreshold(when),
                DoomslugBlockProductionReadiness::NotReady => true,
            }
        }),
{
    let asked = tracker.asked_at(now);
    if !tracker.witness.dom().contains(approval.account_id) {
        law_an_approval_adds_its_senders_stake(asked, approval);
    }
}

// The timer.

/// Before its delay is over the timer does nothing.
pub proof fn law_the_timer_waits(state: DoomslugView, cur_time: Instant, iters: nat)
    requires
        cur_time.nanos < state.timer.started.nanos + state.delay(),
    ensures
        state.after_timer(cur_time, iters) == state,
        state.timer_messages(cur_time, iters) == Seq::<ApprovalView>::empty(),
{
}

/// However late it is, the timer advances by a bounded number of heights. All that it changes is
/// the timer itself and the largest height promised to be skipped, which does not shrink. Each
/// message that it sends is a non-endorsing approval of the tip. It is for the height after one
/// that is larger than the tip's and than any height endorsed, and that height is covered by the
/// promise from then on. Later messages are for larger heights.
pub proof fn law_the_timer_sends_skip_messages(state: DoomslugView, cur_time: Instant, iters: nat)
    requires
        state.timer_fits(cur_time, iters),
    ensures
        ({
            let after = state.after_timer(cur_time, iters);
            let messages = state.timer_messages(cur_time, iters);
            &&& state.timer.height <= after.timer.height <= state.timer.height + iters
            &&& messages.len() <= after.timer.height - state.timer.height
            &&& state.largest_promised_skip_height <= after.largest_promised_skip_height
            &&& after == (DoomslugView {
                timer: after.timer,
                largest_promised_skip_height: after.largest_promised_skip_height,
                ..state
            })
            &&& forall|i: int|
                0 <= i < messages.len() ==> {
                    let message = #[trigger] messages[i];
                    let skipped = message.target_height - 1;
                    &&& Some(message) == state.approval(message.target_height, false)
                    &&& state.timer.height <= skipped < after.timer.height
                    &&& state.largest_endorsed_height < skipped
                    &&& state.tip.height < skipped
                    &&& skipped <= after.largest_promised_skip_height
                }
            &&& forall|i: int, j: int|
                0 <= i < j < messages.len() ==> (#[trigger] messages[i]).target_height < (
                #[trigger] messages[j]).target_height
        }),
    decreases iters,
{
    if iters > 0 && state.timer_due(cur_time) {
        let next = state.timer_step();
        let left = (iters - 1) as nat;
        law_the_timer_sends_skip_messages(next, cur_time, left);
        let messages = state.timer_messages(cur_time, iters);
        let first = state.timer_message();
        let rest = next.timer_messages(cur_time, left);
        assert(messages == first + rest);
        assert forall|i: int| first.len() <= i < messages.len() implies #[trigger] messages[i]
            == rest[i - first.len()] by {}
        assert forall|i: int| first.len() <= i < messages.len() implies {
            let message = #[trigger] messages[i];
            &&& Some(message) == state.approval(message.target_height, false)
            &&& state.timer.height + 2 <= message.target_height
        } by {
            let message = rest[i - first.len()];
            assert(Some(message) == next.approval(message.target_height, false));
        }
    }
}

/// How long the timer runs for `height`, in nanoseconds.
pub open spec fn delay_at(state: DoomslugView, height: nat) -> nat {
    state.timer.delay(
        if height > state.largest_ds_final_height {
            (height - state.largest_ds_final_height) as nat
        } else {
            0
        },
    )
}

/// How long the timer runs for `n` heights, beginning with the current one, in nanoseconds.
pub open spec fn delays(state: DoomslugView, n: nat) -> nat
    decreases n,
{
    if n == 0 {
        0
    } else {
        delays(state, (n - 1) as nat) + delay_at(state, (state.timer.height + n - 1) as nat)
    }
}

/// The smallest height that the timer skips if it gets there: it has not been passed yet, and it is
/// larger than the tip's and than any endorsed.
pub open spec fn first_skip(state: DoomslugView) -> nat {
    let above_tip = state.tip.height as nat + 1;
    let above_endorsed = state.largest_endorsed_height as nat + 1;
    let above_both = if above_tip > above_endorsed {
        above_tip
    } else {
        above_endorsed
    };
    if above_both > state.timer.height {
        above_both
    } else {
        state.timer.height as nat
    }
}

/// The delays of some heights are that of the first and those of the rest.
proof fn lemma_delays_from_the_first(state: DoomslugView, n: nat)
    requires
        state.timer.height < BlockHeight::MAX,
    ensures
        delays(state, n + 1) == state.delay() + delays(state.timer_step(), n),
    decreases n,
{
    if n == 0 {
        assert(delays(state, 0) == 0);
    } else {
        lemma_delays_from_the_first(state, (n - 1) as nat);
    }
}

/// What looking at the timer comes to. It passes some number of heights, at most the bound: so
/// many that the delays of those passed are over, and fewer than the bound only if the delay of
/// the next height is not. It has then been started anew after the delays of the heights passed.
/// Of these heights each one that is larger than the tip's and than any endorsed is skipped: there
/// is a message for each of them, in order, and for no other. The largest one is promised to be
/// skipped, unless a larger one was promised before.
pub proof fn law_the_timer_skips_exactly_the_heights_passed(
    state: DoomslugView,
    cur_time: Instant,
    iters: nat,
)
    requires
        state.timer_fits(cur_time, iters),
    ensures
        ({
            let after = state.after_timer(cur_time, iters);
            let messages = state.timer_messages(cur_time, iters);
            let passed = (after.timer.height - state.timer.height) as nat;
            let first = first_skip(state);
            let end = after.timer.height as nat;
            &&& state.timer.height <= after.timer.height <= state.timer.height + iters
            &&& passed > 0 ==> state.timer.started.nanos + delays(state, passed) <= cur_time.nanos
            &&& passed < iters ==> cur_time.nanos < state.timer.started.nanos + delays(
                state,
                passed + 1,
            )
            &&& after.timer.started.nanos == state.timer.started.nanos + delays(state, passed)
            &&& messages == if state.approval(0, false) is Some && first < end {
                Seq::new(
                    (end - first) as nat,
                    |i: int| state.approval((first + i + 1) as BlockHeight, false)->0,
                )
            } else {
                Seq::empty()
            }
            &&& after.largest_promised_skip_height == if first < end && end - 1
                > state.largest_promised_skip_height {
                end - 1
            } else {
                state.largest_promised_skip_height as int
            }
        }),
    decreases iters,
{
    let after = state.after_timer(cur_time, iters);
    let messages = state.timer_messages(cur_time, iters);
    assert(delays(state, 0) == 0);
    assert(delays(state, 1) == delays(state, 0) + state.delay());
    if iters > 0 && state.timer_due(cur_time) {
        let next = state.timer_step();
        let left = (iters - 1) as nat;
        law_the_timer_skips_exactly_the_heights_passed(next, cur_time, left);
        let passed = (after.timer.height - next.timer.height) as nat;
        lemma_delays_from_the_first(state, passed);
        lemma_delays_from_the_first(state, passed + 1);
        assert(delays(next, 0) == 0);
        let first = first_skip(state);
        let end = after.timer.height as nat;
        let rest = next.timer_messages(cur_time, left);
        assert forall|target: BlockHeight| #[trigger]
            next.approval(target, false) == state.approval(target, false) by {}
        assert(messages == state.timer_message() + rest);
        if state.approval(0, false) is Some && first < end {
            assert(messages =~= Seq::new(
                (end - first) as nat,
                |i: int| state.approval((first + i + 1) as BlockHeight, false)->0,
            ));
        } else {
            assert(messages =~= Seq::empty());
        }
    }
}

/// A call that is not due changes nothing, so where the bound on the number of steps was not met,
/// a larger bound makes no difference.
proof fn lemma_timer_bound_not_met(state: DoomslugView, cur_time: Instant, iters: nat)
    requires
        !state.after_timer(cur_time, iters).timer_due(cur_time),
    ensures
        state.after_timer(cur_time, iters + 1) == state.after_timer(cur_time, iters),
        state.timer_messages(cur_time, iters + 1) == state.timer_messages(cur_time, iters),
    decreases iters,
{
    if iters > 0 && state.timer_due(cur_time) {
        lemma_timer_bound_not_met(state.timer_step(), cur_time, (iters - 1) as nat);
    }
}

/// It makes no difference how often the timer is looked at: looking at two times ends where
/// looking at the later time alone does, with the same messages sent, unless the bound on the
/// number of steps cuts that short.
pub proof fn law_looking_at_the_timer_more_often_changes_nothing(
    state: DoomslugView,
    early: Instant,
    late: Instant,
    iters: nat,
)
    requires
        early.nanos <= late.nanos,
        !state.after_timer(late, iters).timer_due(late),
    ensures
        state.after_timer(early, iters).after_timer(late, iters) == state.after_timer(late, iters),
        state.timer_messages(early, iters) + state.after_timer(early, iters).timer_messages(
            late,
            iters,
        ) == state.timer_messages(late, iters),
    decreases iters,
{
    if iters > 0 && state.timer_due(early) {
        let next = state.timer_step();
        let left = (iters - 1) as nat;
        law_looking_at_the_timer_more_often_changes_nothing(next, early, late, left);
        let middle = next.after_timer(early, left);
        lemma_timer_bound_not_met(middle, late, left);
        assert(state.after_timer(early, iters) == middle);
        assert(state.timer_messages(early, iters) + middle.timer_messages(late, iters)
            =~= state.timer_message() + (next.timer_messages(early, left) + middle.timer_messages(
            late,
            left,
        )));
    } else {
        assert(state.after_timer(early, iters) == state);
        assert(state.timer_messages(early, iters) + state.timer_messages(late, iters)
            =~= state.timer_messages(late, iters));
    }
}

/// The timer can be looked at whenever the heights that it may reach exist, and neither its delays
/// nor the times that it may reach are too large to be represented.
pub proof fn law_the_timer_fits_away_from_the_limits(
    state: DoomslugView,
    cur_time: Instant,
    iters: nat,
)
    requires
        state.timer.height + iters <= BlockHeight::MAX,
        state.timer.delay_fits((state.timer.height + iters) as nat),
        state.timer.started.nanos + state.timer.max_delay.nanos <= u128::MAX,
        cur_time.nanos + state.timer.max_delay.nanos <= u128::MAX,
    ensures
        state.timer_fits(cur_time, iters),
    decreases iters,
{
    if iters > 0 {
        law_delay_grows_up_to_its_cap(
            state.timer,
            state.heights_since_final(),
            (state.timer.height + iters) as nat,
        );
        if state.timer_due(cur_time) {
            let next = state.timer_step();
            assert(next.timer.height + (iters - 1) == state.timer.height + iters);
            law_the_timer_fits_away_from_the_limits(next, cur_time, (iters - 1) as nat);
        }
    }
}

// Producing blocks.

/// Nobody produces a block that others refuse: if the approvals of a block suffice to produce it,
/// now or after a wait, then the approvals that `remove_witness` hands out pass
/// `can_approved_block_be_produced`; and if they suffice to produce it without waiting, the
/// approved block is final in the eyes of `is_approved_block_ds_final`.
pub proof fn law_a_produced_block_is_accepted(
    state: DoomslugView,
    key: (Seq<u8>, BlockHeight),
    now: Instant,
    approvals: Seq<ApprovalView>,
)
    requires
        state.wf(),
        state.approval_tracking.dom().contains(key),
        lists(approvals, state.witness(key.0, key.1)),
    ensures
        ({
            let tracker = state.approval_tracking[key];
            let readiness = tracker.readiness(now);
            &&& readiness != DoomslugBlockProductionReadiness::NotReady
                ==> approved_block_can_be_produced(
                state.threshold_mode,
                approvals,
                tracker.stakes,
            )
            &&& readiness == DoomslugBlockProductionReadiness::ReadyToProduce
                ==> approved_block_ds_final(approvals, tracker.stakes)
        }),
{
    let tracker = state.approval_tracking[key];
    lemma_listed_stake(approvals, tracker.witness, tracker.stakes);
    law_stakes_are_nested(tracker);
    if approvals.len() == 0 {
        assert(tracker.witness.dom() =~= Set::empty());
    }
}

/// A block that `ready_to_produce_block` lets through has enough approvals.
pub proof fn law_a_block_that_may_be_produced_has_enough_approvals(
    state: DoomslugView,
    now: Instant,
    target_height: BlockHeight,
    approvals: Seq<ApprovalView>,
)
    requires
        state.wf(),
        state.ready_to_produce(now, target_height),
        lists(approvals, state.witness(state.tip.block_hash, target_height)),
    ensures
        approved_block_can_be_produced(
            state.threshold_mode,
            approvals,
            state.approval_tracking[(state.tip.block_hash, target_height)].stakes,
        ),
{
    law_a_produced_block_is_accepted(
        state,
        (state.tip.block_hash, target_height),
        now,
        approvals,
    );
}

/// A block that may be produced may still be produced later, and also when one more approval has
/// come in, for this block or for any other.
pub proof fn law_a_block_that_may_be_produced_still_may_later(
    state: DoomslugView,
    target_height: BlockHeight,
    now: Instant,
    later: Instant,
    received: Instant,
    approval: ApprovalView,
    stakes: Map<Seq<char>, Balance>,
)
    requires
        state.wf(),
        state.ready_to_produce(now, target_height),
        now.nanos <= later.nanos,
    ensures
        state.ready_to_produce(later, target_height),
        state.with_approval(received, approval, stakes).ready_to_produce(later, target_height),
{
    let key = (state.tip.block_hash, target_height);
    let tracker = state.approval_tracking[key];
    if key == (approval.parent_hash, approval.target_height) {
        law_readiness_never_regresses(tracker, approval, now, received);
        law_readiness_never_regresses(tracker, approval, now, later);
        if !tracker.witness.dom().contains(approval.account_id) {
            law_an_approval_adds_its_senders_stake(tracker, approval);
        }
    }
}

/// The block before is final for `is_prev_block_ds_final` if and only if the approvals that
/// `remove_witness` hands out make it so for `is_approved_block_ds_final`.
pub proof fn law_both_notions_of_finality_agree(
    state: DoomslugView,
    prev_hash: Seq<u8>,
    target_height: BlockHeight,
    approvals: Seq<ApprovalView>,
)
    requires
        state.approval_tracking.dom().contains((prev_hash, target_height)),
        lists(approvals, state.witness(prev_hash, target_height)),
    ensures
        state.is_prev_block_ds_final(prev_hash, target_height) == approved_block_ds_final(
            approvals,
            state.approval_tracking[(prev_hash, target_height)].stakes,
        ),
{
    let tracker = state.approval_tracking[(prev_hash, target_height)];
    lemma_listed_stake(approvals, tracker.witness, tracker.stakes);
}

/// What `remove_witness` hands out is for the block asked for: every approval in it approves
/// `prev_hash` for `target_height`, and no two come from the same account.
pub proof fn law_removed_approvals_are_for_the_block_asked_for(
    state: DoomslugView,
    prev_hash: Seq<u8>,
    target_height: BlockHeight,
    approvals: Seq<ApprovalView>,
)
    requires
        state.wf(),
        lists(approvals, state.witness(prev_hash, target_height)),
    ensures
        forall|i: int|
            0 <= i < approvals.len() ==> (#[trigger] approvals[i]).parent_hash == prev_hash
                && approvals[i].target_height == target_height,
        forall|i: int, j: int|
            0 <= i < j < approvals.len() ==> (#[trigger] approvals[i]).account_id != (
            #[trigger] approvals[j]).account_id,
{
    let pairs = crate::stake::by_account(approvals);
    let witness = state.witness(prev_hash, target_height);
    assert forall|i: int| 0 <= i < approvals.len() implies (#[trigger] approvals[i]).parent_hash
        == prev_hash && approvals[i].target_height == target_height by {
        crate::assoc::lemma_pair_in_map(pairs, i);
        assert(witness.dom().contains(approvals[i].account_id));
        assert(state.approval_tracking.dom().contains((prev_hash, target_height)));
    }
    assert forall|i: int, j: int| 0 <= i < j < approvals.len() implies (
    #[trigger] approvals[i]).account_id != (#[trigger] approvals[j]).account_id by {
        if approvals[i].account_id == approvals[j].account_id {
            assert(pairs[i].0 == pairs[j].0);
        }
    }
}

/// Once the approvals of a block have been removed, there are none, the block before is not final
/// for the lack of them, and removing them again changes nothing. The approvals of other blocks
/// stay.
pub proof fn law_removed_approvals_are_gone(
    state: DoomslugView,
    prev_hash: Seq<u8>,
    target_height: BlockHeight,
    other: (Seq<u8>, BlockHeight),
)
    requires
        other != (prev_hash, target_height),
    ensures
        ({
            let after = state.without_witness(prev_hash, target_height);
            &&& after.witness(prev_hash, target_height) == Map::<Seq<char>, ApprovalView>::empty()
            &&& !after.is_prev_block_ds_final(prev_hash, target_height)
            &&& after.without_witness(prev_hash, target_height) == after
            &&& after.witness(other.0, other.1) == state.witness(other.0, other.1)
        }),
{
    let after = state.without_witness(prev_hash, target_height);
    assert(after.without_witness(prev_hash, target_height) =~= after);
}

/// Approvals for different blocks do not interfere: in which order they come in makes no
/// difference.
pub proof fn law_approvals_for_different_blocks_do_not_interfere(
    state: DoomslugView,
    now: Instant,
    a: ApprovalView,
    a_stakes: Map<Seq<char>, Balance>,
    later: Instant,
    b: ApprovalView,
    b_stakes: Map<Seq<char>, Balance>,
)
    requires
        (a.parent_hash, a.target_height) != (b.parent_hash, b.target_height),
    ensures
        state.with_approval(now, a, a_stakes).with_approval(later, b, b_stakes)
            == state.with_approval(later, b, b_stakes).with_approval(now, a, a_stakes),
{
    assert(state.with_approval(now, a, a_stakes).with_approval(later, b, b_stakes)
        =~= state.with_approval(later, b, b_stakes).with_approval(now, a, a_stakes));
}

/// Two blocks that are both final in the eyes of their approvals, weighed by the same stakes, share
/// an endorser that is a validator: without somebody who endorses both, at most one is final.
pub proof fn law_final_blocks_share_an_endorser(
    state: DoomslugView,
    a: (Seq<u8>, BlockHeight),
    b: (Seq<u8>, BlockHeight),
)
    requires
        state.wf(),
        state.is_prev_block_ds_final(a.0, a.1),
        state.is_prev_block_ds_final(b.0, b.1),
        state.approval_tracking[a].stakes == state.approval_tracking[b].stakes,
    ensures
        exists|account: Seq<char>|
            {
                &&& #[trigger] state.witness(a.0, a.1).dom().contains(account)
                &&& state.witness(a.0, a.1)[account].is_endorsement
                &&& state.witness(b.0, b.1).dom().contains(account)
                &&& state.witness(b.0, b.1)[account].is_endorsement
                &&& state.approval_tracking[a].stakes.dom().contains(account)
            },
{
    let stakes = state.approval_tracking[a].stakes;
    let of_a = endorsers(state.witness(a.0, a.1));
    let of_b = endorsers(state.witness(b.0, b.1));
    assert(state.approval_tracking.dom().contains(a));
    assert(state.approval_tracking.dom().contains(b));
    law_majorities_share_a_validator(stakes, of_a, of_b);
    let account = choose|account: Seq<char>| #[trigger]
        of_a.contains(account) && of_b.contains(account) && stakes.dom().contains(account);
    assert(state.witness(a.0, a.1).dom().contains(account));
}

/// The largest height that has crossed the threshold is no less than that of any block whose
/// approvals suffice to produce it, now or after a wait.
pub proof fn law_the_threshold_height_covers_every_block(
    state: DoomslugView,
    key: (Seq<u8>, BlockHeight),
    now: Instant,
)
    requires
        state.wf(),
        state.approval_tracking.dom().contains(key),
        state.approval_tracking[key].readiness(now) != DoomslugBlockProductionReadiness::NotReady,
    ensures
        key.1 <= state.largest_threshold_height,
{
}

// Whatever happens.

/// Something that happens to a participant. What else can be called changes nothing: a call of
/// `ready_to_produce_block` leaves the state as it is.
pub enum Event {
    /// A call of `set_tip`.
    SetTip { now: Instant, tip: TipView, last_ds_final_height: BlockHeight },
    /// A call of `process_timer`, with a bound on the number of steps.
    Timer { cur_time: Instant, iters: nat },
    /// A call of `on_approval_message`.
    Approval { now: Instant, approval: ApprovalView, stakes: Map<Seq<char>, Balance> },
    /// A call of `remove_witness`.
    RemoveWitness { prev_hash: Seq<u8>, target_height: BlockHeight },
}

/// The call is one that the participant can take.
pub open spec fn can_happen(state: DoomslugView, event: Event) -> bool {
    match event {
        Event::SetTip { tip, .. } => tip.height < BlockHeight::MAX,
        Event::Timer { cur_time, iters } => state.timer_fits(cur_time, iters),
        Event::Approval { approval, stakes, .. } => state.approval_tracking.dom().contains(
            (approval.parent_hash, approval.target_height),
        ) || stakes.dom().finite() && total_stake(stakes) * 2 <= u128::MAX,
        Event::RemoveWitness { .. } => true,
    }
}

/// The state after the event.
pub open spec fn after_event(state: DoomslugView, event: Event) -> DoomslugView {
    match event {
        Event::SetTip { now, tip, last_ds_final_height } => state.with_tip(
            now,
            tip,
            last_ds_final_height,
        ),
        Event::Timer { cur_time, iters } => state.after_timer(cur_time, iters),
        Event::Approval { now, approval, stakes } => state.with_approval(now, approval, stakes),
        Event::RemoveWitness { prev_hash, target_height } => state.without_witness(
            prev_hash,
            target_height,
        ),
    }
}

/// The heights that the participant endorses at the event.
pub open spec fn endorsed_at(state: DoomslugView, event: Event) -> Seq<BlockHeight> {
    match event {
        Event::SetTip { tip, .. } if state.can_endorse(tip.height) => seq![tip.height],
        _ => Seq::empty(),
    }
}

/// The heights that the participant sends skip messages for at the event.
pub open spec fn skipped_at(state: DoomslugView, event: Event) -> Seq<BlockHeight> {
    match event {
        Event::Timer { cur_time, iters } => Seq::new(
            state.timer_messages(cur_time, iters).len(),
            |i: int|
                (state.timer_messages(cur_time, iters)[i].target_height - 1) as BlockHeight,
        ),
        _ => Seq::empty(),
    }
}

/// The state after a series of events.
pub open spec fn after_events(state: DoomslugView, events: Seq<Event>) -> DoomslugView
    decreases events.len(),
{
    if events.len() == 0 {
        state
    } else {
        after_event(after_events(state, events.drop_last()), events.last())
    }
}

/// Each call of a series is one that the participant can take.
pub open spec fn can_all_happen(state: DoomslugView, events: Seq<Event>) -> bool
    decreases events.len(),
{
    events.len() > 0 ==> {
        &&& can_all_happen(state, events.drop_last())
        &&& can_happen(after_events(state, events.drop_last()), events.last())
    }
}

/// The heights that the participant endorses in the course of a series of events.
pub open spec fn endorsed_heights(state: DoomslugView, events: Seq<Event>) -> Seq<BlockHeight>
    decreases events.len(),
{
    if events.len() == 0 {
        Seq::empty()
    } else {
        endorsed_heights(state, events.drop_last()) + endorsed_at(
            after_events(state, events.drop_last()),
            events.last(),
        )
    }
}

/// The heights that the participant sends skip messages for in the course of a series of events.
pub open spec fn skipped_heights(state: DoomslugView, events: Seq<Event>) -> Seq<BlockHeight>
    decreases events.len(),
{
    if events.len() == 0 {
        Seq::empty()
    } else {
        skipped_heights(state, events.drop_last()) + skipped_at(
            after_events(state, events.drop_last()),
            events.last(),
        )
    }
}

/// The approval that is sent when the tip moves approves the new tip for the height after it, and
/// it is an endorsement if and only if the participant endorses the height of the new tip.
pub proof fn law_an_endorsement_is_for_an_endorsed_height(
    state: DoomslugView,
    now: Instant,
    tip: TipView,
    last_ds_final_height: BlockHeight,
)
    requires
        tip.height < BlockHeight::MAX,
    ensures
        ({
            let event = Event::SetTip { now, tip, last_ds_final_height };
            let endorses = state.can_endorse(tip.height);
            let sent = after_event(state, event).approval(
                (tip.height + 1) as BlockHeight,
                endorses,
            );
            &&& endorsed_at(state, event) == if endorses {
                seq![tip.height]
            } else {
                Seq::empty()
            }
            &&& sent matches Some(approval) ==> {
                &&& approval.is_endorsement == endorses
                &&& approval.parent_hash == tip.block_hash
                &&& approval.target_height == tip.height + 1
            }
        }),
{
}

/// Whatever happens, the state stays well-formed, and the heights that the participant has
/// promised to skip, has endorsed, has seen enough approvals for, and has seen doomslug finality
/// at do not shrink.
pub proof fn law_heights_never_shrink(state: DoomslugView, event: Event)
    requires
        state.wf(),
        can_happen(state, event),
    ensures
        after_event(state, event).wf(),
        state.largest_promised_skip_height <= after_event(
            state,
            event,
        ).largest_promised_skip_height,
        state.largest_endorsed_height <= after_event(state, event).largest_endorsed_height,
        state.largest_threshold_height <= after_event(state, event).largest_threshold_height,
        state.largest_ds_final_height <= after_event(state, event).largest_ds_final_height,
{
    match event {
        Event::Timer { cur_time, iters } => {
            law_the_timer_sends_skip_messages(state, cur_time, iters);
        },
        Event::Approval { now, approval, stakes } => {
            lemma_with_approval_wf(state, now, approval, stakes);
        },
        _ => {},
    }
}

/// Honest participants do not contradict themselves, whatever happens: they endorse ever larger
/// heights, hence none twice, and none that they ever send a skip message for, before or after.
/// Whatever heights they start with from an earlier life, they endorse only larger ones than those
/// that they endorsed or promised to skip then, and skip only larger ones than those that they
/// endorsed then.
pub proof fn law_no_height_is_both_endorsed_and_skipped(state: DoomslugView, events: Seq<Event>)
    requires
        state.wf(),
        can_all_happen(state, events),
    ensures
        ({
            let after = after_events(state, events);
            let endorsed = endorsed_heights(state, events);
            let skipped = skipped_heights(state, events);
            &&& after.wf()
            &&& state.largest_promised_skip_height <= after.largest_promised_skip_height
            &&& state.largest_endorsed_height <= after.largest_endorsed_height
            &&& forall|i: int|
                0 <= i < endorsed.len() ==> state.largest_promised_skip_height < #[trigger] endorsed[i]
                    && state.largest_endorsed_height < endorsed[i]
                    <= after.largest_endorsed_height
            &&& forall|i: int|
                0 <= i < skipped.len() ==> state.largest_endorsed_height < #[trigger] skipped[i]
                    <= after.largest_promised_skip_height
            &&& forall|i: int, j: int|
                0 <= i < j < endorsed.len() ==> #[trigger] endorsed[i] < #[trigger] endorsed[j]
            &&& forall|i: int, j: int|
                0 <= i < endorsed.len() && 0 <= j < skipped.len() ==> #[trigger] endorsed[i]
                    != #[trigger] skipped[j]
        }),
    decreases events.len(),
{
    if events.len() > 0 {
        let earlier = events.drop_last();
        let event = events.last();
        let before = after_events(state, earlier);
        law_no_height_is_both_endorsed_and_skipped(state, earlier);
        law_heights_never_shrink(before, event);
        let endorsed = endorsed_heights(state, events);
        let skipped = skipped_heights(state, events);
        let endorsed_before = endorsed_heights(state, earlier);
        let skipped_before = skipped_heights(state, earlier);
        let new_endorsed = endorsed_at(before, event);
        let new_skipped = skipped_at(before, event);
        assert(endorsed == endorsed_before + new_endorsed);
        assert(skipped == skipped_before + new_skipped);
        assert forall|i: int| 0 <= i < new_skipped.len() implies before.largest_endorsed_height
            < #[trigger] new_skipped[i] <= after_event(
            before,
            event,
        ).largest_promised_skip_height by {
            if let Event::Timer { cur_time, iters } = event {
                law_the_timer_sends_skip_messages(before, cur_time, iters);
                let messages = before.timer_messages(cur_time, iters);
                assert(before.largest_endorsed_height < messages[i].target_height - 1);
            }
        }
        assert forall|i: int| 0 <= i < endorsed.len() implies endorsed[i] == if i
            < endorsed_before.len() {
            endorsed_before[i]
        } else {
            new_endorsed[i - endorsed_before.len()]
        } by {}
        assert forall|i: int| 0 <= i < skipped.len() implies skipped[i] == if i
            < skipped_before.len() {
            skipped_before[i]
        } else {
            new_skipped[i - skipped_before.len()]
        } by {}
    }
}

/// A participant keeps its word: a height that it endorses later is larger than any that it endorsed
/// or sent a skip message for earlier, and a height that it sends a skip message for later is
/// larger than any that it endorsed earlier.
pub proof fn law_later_messages_respect_earlier_ones(
    state: DoomslugView,
    earlier: Seq<Event>,
    later: Seq<Event>,
)
    requires
        state.wf(),
        can_all_happen(state, earlier),
        can_all_happen(after_events(state, earlier), later),
    ensures
        ({
            let between = after_events(state, earlier);
            let endorsed = endorsed_heights(state, earlier);
            let skipped = skipped_heights(state, earlier);
            let endorsed_later = endorsed_heights(between, later);
            let skipped_later = skipped_heights(between, later);
            &&& forall|i: int, j: int|
                0 <= i < endorsed.len() && 0 <= j < endorsed_later.len() ==> #[trigger] endorsed[i]
                    < #[trigger] endorsed_later[j]
            &&& forall|i: int, j: int|
                0 <= i < skipped.len() && 0 <= j < endorsed_later.len() ==> #[trigger] skipped[i]
                    < #[trigger] endorsed_later[j]
            &&& forall|i: int, j: int|
                0 <= i < endorsed.len() && 0 <= j < skipped_later.len() ==> #[trigger] endorsed[i]
                    < #[trigger] skipped_later[j]
        }),
{
    law_no_height_is_both_endorsed_and_skipped(state, earlier);
    law_no_height_is_both_endorsed_and_skipped(after_events(state, earlier), later);
}

} // verus!

//! What each operation decides and changes, said of the state, the stakes and the approvals alone.
use crate::approval::{approval_data, optional_hash, Approval, ApprovalView};
use crate::assoc::{distinct_keys, lemma_pair_in_map, pairs_map};
use crate::doomslug::{
    approved_block_can_be_produced, approved_block_ds_final, optional_account, optional_key_pair,
    DoomslugView, TipView,
};
use crate::laws::law_stakes_are_nested;
use crate::signer::{ed25519_signature, Signer};
use crate::stake::{
    approval_views, approvals_stake, by_account, endorsements_stake, endorsers,
    law_majorities_share_a_validator, lemma_listed_stake, lemma_next_stake, lemma_stake_sum_empty,
    lemma_stake_sum_insert, lists, stake_sum, total_stake, validator_pairs,
};
use crate::time::{Duration, Instant};
use crate::timer::DoomslugTimer;
use crate::tracker::{DoomslugBlockProductionReadiness, DoomslugThresholdMode, TrackerView};
use crate::types::{AccountId, Balance, BlockHeight, ValidatorStake};
use std::sync::Arc;
use vstd::prelude::*;

verus! {

/// `accounts` are those whose approval in `witness` is an endorsement.
pub open spec fn endorse(
    accounts: Set<Seq<char>>,
    witness: Map<Seq<char>, ApprovalView>,
) -> bool {
    forall|account: Seq<char>| #[trigger]
        accounts.contains(account) <==> witness.dom().contains(account)
            && witness[account].is_endorsement
}

proof fn lemma_endorse(accounts: Set<Seq<char>>, witness: Map<Seq<char>, ApprovalView>)
    requires
        endorse(accounts, witness),
    ensures
        accounts == endorsers(witness),
{
    assert(accounts =~= endorsers(witness));
}

// Sums of stakes.

/// What accounts have at stake is a sum: nobody has nothing at stake, and one more account adds
/// what it is listed with, or nothing if it is not listed. The total is that of all listed.
pub proof fn law_stakes_add_up(
    stakes: Map<Seq<char>, Balance>,
    accounts: Set<Seq<char>>,
    account: Seq<char>,
)
    requires
        accounts.finite(),
        !accounts.contains(account),
    ensures
        stake_sum(stakes, Set::empty()) == 0,
        stake_sum(stakes, accounts.insert(account)) == stake_sum(stakes, accounts) + if
        stakes.dom().contains(account) {
            stakes[account] as int
        } else {
            0
        },
        total_stake(stakes) == stake_sum(stakes, stakes.dom()),
{
    lemma_stake_sum_empty(stakes);
    lemma_stake_sum_insert(stakes, accounts, account);
}

/// What the senders of a list of approvals have at stake is a sum too: the empty list weighs
/// nothing, and one more approval adds what its sender is listed with, to the stake of the
/// endorsements only if it is one.
pub proof fn law_listed_stakes_add_up(
    approvals: Seq<ApprovalView>,
    approval: ApprovalView,
    stakes: Map<Seq<char>, Balance>,
)
    ensures
        approvals_stake(Seq::empty(), stakes) == 0,
        endorsements_stake(Seq::empty(), stakes) == 0,
        ({
            let stake = if stakes.dom().contains(approval.account_id) {
                stakes[approval.account_id] as int
            } else {
                0
            };
            let more = approvals.push(approval);
            &&& approvals_stake(more, stakes) == approvals_stake(approvals, stakes) + stake
            &&& endorsements_stake(more, stakes) == endorsements_stake(approvals, stakes) + if
            approval.is_endorsement {
                stake
            } else {
                0
            }
        }),
{
    reveal(Seq::filter);
    let more = approvals.push(approval);
    let n = approvals.len() as int;
    lemma_next_stake(more, stakes, n);
    assert(more.take(n) =~= approvals);
    assert(more.take(n + 1) =~= more);
}

/// The stakes of a list of distinct validators list exactly them, each with its amount.
pub proof fn law_validators_are_listed_with_their_amounts(
    validators: Seq<ValidatorStake>,
    account: Seq<char>,
)
    requires
        distinct_keys(validator_pairs(validators)),
    ensures
        pairs_map(validator_pairs(validators)).dom().contains(account) <==> exists|i: int|
            0 <= i < validators.len() && (#[trigger] validators[i]).account_id@ == account,
        forall|i: int|
            0 <= i < validators.len() && (#[trigger] validators[i]).account_id@ == account
                ==> pairs_map(validator_pairs(validators))[account] == validators[i].amount,
        validator_pairs(validators).len() == validators.len(),
{
    let pairs = validator_pairs(validators);
    assert forall|i: int|
        0 <= i < validators.len() && (#[trigger] validators[i]).account_id@
            == account implies pairs_map(pairs).dom().contains(account) && pairs_map(pairs)[account]
        == validators[i].amount by {
        lemma_pair_in_map(pairs, i);
    }
    if pairs_map(pairs).dom().contains(account) {
        let i = choose|i: int| crate::assoc::at_key(pairs, account, i);
        assert(validators[i].account_id@ == account);
    }
}

/// Validators are distinct exactly when no two of them share an account.
pub proof fn law_validators_are_distinct_by_account(validators: Seq<ValidatorStake>)
    ensures
        distinct_keys(validator_pairs(validators)) <==> forall|i: int, j: int|
            0 <= i < j < validators.len() ==> (#[trigger] validators[i]).account_id@ != (
            #[trigger] validators[j]).account_id@,
{
    let pairs = validator_pairs(validators);
    if distinct_keys(pairs) {
        assert forall|i: int, j: int| 0 <= i < j < validators.len() implies (
        #[trigger] validators[i]).account_id@ != (#[trigger] validators[j]).account_id@ by {
            if validators[i].account_id@ == validators[j].account_id@ {
                assert(pairs[i].0 == pairs[j].0);
            }
        }
    }
    if forall|i: int, j: int|
        0 <= i < j < validators.len() ==> (#[trigger] validators[i]).account_id@ != (
        #[trigger] validators[j]).account_id@ {
        assert forall|i: int, j: int|
            0 <= i < pairs.len() && 0 <= j < pairs.len() && #[trigger] pairs[i].0
                == #[trigger] pairs[j].0 implies i == j by {
            let _ = (validators[i], validators[j]);
        }
    }
}

/// A list of approvals lists a witness if and only if each account of the witness sent exactly one
/// approval of the list, the one that the witness holds, and nobody else sent any.
pub proof fn law_a_list_holds_each_approval_once(
    approvals: Seq<ApprovalView>,
    witness: Map<Seq<char>, ApprovalView>,
)
    ensures
        lists(approvals, witness) <==> {
            &&& forall|i: int, j: int|
                0 <= i < j < approvals.len() ==> (#[trigger] approvals[i]).account_id != (
                #[trigger] approvals[j]).account_id
            &&& forall|i: int|
                0 <= i < approvals.len() ==> witness.dom().contains(
                    (#[trigger] approvals[i]).account_id,
                ) && witness[approvals[i].account_id] == approvals[i]
            &&& forall|account: Seq<char>| #[trigger]
                witness.dom().contains(account) ==> exists|i: int|
                    0 <= i < approvals.len() && (#[trigger] approvals[i]).account_id == account
        },
{
    let pairs = by_account(approvals);
    if lists(approvals, witness) {
        assert forall|i: int| 0 <= i < approvals.len() implies witness.dom().contains(
            (#[trigger] approvals[i]).account_id,
        ) && witness[approvals[i].account_id] == approvals[i] by {
            lemma_pair_in_map(pairs, i);
        }
        assert forall|i: int, j: int| 0 <= i < j < approvals.len() implies (
        #[trigger] approvals[i]).account_id != (#[trigger] approvals[j]).account_id by {
            if approvals[i].account_id == approvals[j].account_id {
                assert(pairs[i].0 == pairs[j].0);
            }
        }
        assert forall|account: Seq<char>| #[trigger]
            witness.dom().contains(account) implies exists|i: int|
            0 <= i < approvals.len() && (#[trigger] approvals[i]).account_id == account by {
            let i = choose|i: int| crate::assoc::at_key(pairs, account, i);
            assert(approvals[i].account_id == account);
        }
    }
    if {
        &&& forall|i: int, j: int|
            0 <= i < j < approvals.len() ==> (#[trigger] approvals[i]).account_id != (
            #[trigger] approvals[j]).account_id
        &&& forall|i: int|
            0 <= i < approvals.len() ==> witness.dom().contains(
                (#[trigger] approvals[i]).account_id,
            ) && witness[approvals[i].account_id] == approvals[i]
        &&& forall|account: Seq<char>| #[trigger]
            witness.dom().contains(account) ==> exists|i: int|
                0 <= i < approvals.len() && (#[trigger] approvals[i]).account_id == account
    } {
        assert(distinct_keys(pairs)) by {
            assert forall|i: int, j: int|
                0 <= i < pairs.len() && 0 <= j < pairs.len() && #[trigger] pairs[i].0
                    == #[trigger] pairs[j].0 implies i == j by {
                let _ = (approvals[i], approvals[j]);
            }
        }
        assert forall|account: Seq<char>| #[trigger]
            pairs_map(pairs).dom().contains(account) <==> witness.dom().contains(account) by {
            if pairs_map(pairs).dom().contains(account) {
                let i = choose|i: int| crate::assoc::at_key(pairs, account, i);
                assert(approvals[i].account_id == account);
            }
            if witness.dom().contains(account) {
                let i = choose|i: int|
                    0 <= i < approvals.len() && (#[trigger] approvals[i]).account_id == account;
                lemma_pair_in_map(pairs, i);
            }
        }
        assert forall|account: Seq<char>| #[trigger]
            pairs_map(pairs).dom().contains(account) implies pairs_map(pairs)[account]
            == witness[account] by {
            let i = choose|i: int| crate::assoc::at_key(pairs, account, i);
            lemma_pair_in_map(pairs, i);
            assert(approvals[i].account_id == account);
        }
        assert(pairs_map(pairs) =~= witness);
    }
}

// Approvals.

/// What an approval says is what stands in its fields, and a list says what its approvals say, in
/// the same order.
pub proof fn law_approvals_say_what_their_fields_say(approvals: Seq<Approval>, i: int)
    requires
        0 <= i < approvals.len(),
    ensures
        approval_views(approvals).len() == approvals.len(),
        ({
            let said = approval_views(approvals)[i];
            let approval = approvals[i];
            &&& said == approval@
            &&& said.parent_hash == approval.parent_hash@
            &&& said.parent_hash == approval.parent_hash.0@
            &&& said.parent_hash.len() == 32
            &&& (said.reference_hash is Some <==> approval.reference_hash is Some)
            &&& approval.reference_hash is Some ==> said.reference_hash->0
                == approval.reference_hash->0@
            &&& optional_hash(approval.reference_hash) == said.reference_hash
            &&& said.target_height == approval.target_height
            &&& said.is_endorsement == approval.is_endorsement
            &&& said.signature == approval.signature@
            &&& said.account_id == approval.account_id@
        }),
{
}

/// A participant with a name makes approvals of its tip, in its name, for the height and of the
/// kind asked for, and signs them over all that they say. One without a name makes none.
pub proof fn law_approvals_are_of_the_tip_and_signed(
    state: DoomslugView,
    target_height: BlockHeight,
    is_endorsement: bool,
)
    requires
        state.wf(),
    ensures
        state.approval(target_height, is_endorsement) is Some <==> state.me is Some,
        state.approval(target_height, is_endorsement) matches Some(approval) ==> {
            &&& approval.parent_hash == state.tip.block_hash
            &&& approval.reference_hash == state.tip.reference_hash
            &&& approval.target_height == target_height
            &&& approval.is_endorsement == is_endorsement
            &&& Some(approval.account_id) == state.me
            &&& approval.signature == ed25519_signature(
                state.key_pair->0,
                approval_data(
                    approval.parent_hash,
                    approval.reference_hash,
                    approval.target_height,
                    approval.is_endorsement,
                ),
            )
        },
{
}

/// Anybody's approval says what it was made to say, and is signed over that with the given key.
pub proof fn law_a_signed_approval_says_what_it_was_made_to_say(
    parent_hash: Seq<u8>,
    reference_hash: Option<Seq<u8>>,
    target_height: BlockHeight,
    is_endorsement: bool,
    key_pair: Seq<u8>,
    account_id: Seq<char>,
)
    ensures
        ({
            let approval = ApprovalView::signed(
                parent_hash,
                reference_hash,
                target_height,
                is_endorsement,
                key_pair,
                account_id,
            );
            &&& approval.parent_hash == parent_hash
            &&& approval.reference_hash == reference_hash
            &&& approval.target_height == target_height
            &&& approval.is_endorsement == is_endorsement
            &&& approval.account_id == account_id
            &&& approval.signature == ed25519_signature(
                key_pair,
                approval_data(parent_hash, reference_hash, target_height, is_endorsement),
            )
        }),
{
}

/// A participant goes by the name and signs with the key that it was given, if it was given any.
pub proof fn law_names_and_keys_are_those_given(account: AccountId, signer: Arc<Signer>)
    ensures
        optional_account(Some(account)) == Some(account@),
        optional_account(None) is None,
        optional_key_pair(Some(signer)) == Some(signer.key_pair()),
        optional_key_pair(None) is None,
{
}

// Trackers.

/// The threshold is passed exactly when the stake says so. With `HalfStake` that is when those who
/// sent an approval, endorsing or not, have more than half of the total stake; with
/// `SingleApproval` it is when anybody has sent one. The block is ready exactly when the senders
/// have more than two thirds of the total stake, and those among them who endorse more than half.
/// Past the threshold, and not ready, the time is the one noted, or the current one if there is
/// none.
pub proof fn law_readiness_is_a_matter_of_stake(
    tracker: TrackerView,
    now: Instant,
    endorsing: Set<Seq<char>>,
)
    requires
        tracker.wf(),
        endorse(endorsing, tracker.witness),
    ensures
        ({
            let total = stake_sum(tracker.stakes, tracker.stakes.dom());
            let approved = stake_sum(tracker.stakes, tracker.witness.dom());
            let endorsed = stake_sum(tracker.stakes, endorsing);
            let readiness = tracker.readiness(now);
            &&& tracker.threshold_mode == DoomslugThresholdMode::HalfStake ==> (readiness
                != DoomslugBlockProductionReadiness::NotReady <==> 2 * approved > total)
            &&& tracker.threshold_mode == DoomslugThresholdMode::SingleApproval ==> (readiness
                != DoomslugBlockProductionReadiness::NotReady <==> exists|account: Seq<char>|
                #[trigger] tracker.witness.dom().contains(account))
            &&& readiness == DoomslugBlockProductionReadiness::ReadyToProduce <==> 3 * approved > 2
                * total && 2 * endorsed > total
            &&& readiness matches DoomslugBlockProductionReadiness::PassedThreshold(when) ==> when
                == match tracker.time_passed_threshold {
                Some(noted) => noted,
                None => now,
            }
        }),
{
    lemma_endorse(endorsing, tracker.witness);
    law_stakes_are_nested(tracker);
    let senders = tracker.witness.dom();
    if senders.len() == 0 {
        assert(senders =~= Set::empty());
        lemma_stake_sum_empty(tracker.stakes);
        assert(endorsing =~= Set::empty());
    } else {
        assert(senders.contains(senders.choose()));
    }
}

/// Asking for the readiness changes nothing but the time noted, and that only where none was noted
/// and the answer gives one.
pub proof fn law_asking_only_notes_the_time(tracker: TrackerView, now: Instant)
    ensures
        ({
            let after = tracker.asked_at(now);
            &&& after.witness == tracker.witness
            &&& after.stakes == tracker.stakes
            &&& after.threshold_mode == tracker.threshold_mode
            &&& after.time_passed_threshold == match tracker.readiness(now) {
                DoomslugBlockProductionReadiness::PassedThreshold(when) => Some(when),
                _ => tracker.time_passed_threshold,
            }
        }),
{
}

/// A new tracker has the stakes and the mode that it was given, no approvals and no time noted. An
/// approval is recorded under its sender if that account has sent none before; whatever else was
/// recorded, and all else, stays.
pub proof fn law_a_tracker_records_the_first_approval_of_each_account(
    tracker: TrackerView,
    approval: ApprovalView,
    account: Seq<char>,
    stakes: Map<Seq<char>, Balance>,
    mode: DoomslugThresholdMode,
)
    ensures
        ({
            let fresh = TrackerView::fresh(stakes, mode);
            &&& !fresh.witness.dom().contains(account)
            &&& fresh.stakes == stakes
            &&& fresh.threshold_mode == mode
            &&& fresh.time_passed_threshold is None
        }),
        ({
            let after = tracker.with_approval(approval);
            &&& after.witness.dom().contains(account) <==> tracker.witness.dom().contains(account)
                || account == approval.account_id
            &&& tracker.witness.dom().contains(account) ==> after.witness[account]
                == tracker.witness[account]
            &&& !tracker.witness.dom().contains(approval.account_id)
                ==> after.witness[approval.account_id] == approval
            &&& after.stakes == tracker.stakes
            &&& after.threshold_mode == tracker.threshold_mode
            &&& after.time_passed_threshold == tracker.time_passed_threshold
        }),
{
}

// Judging blocks by their approvals.

/// Finality is a matter of endorsements alone, whatever others sent or did not send: if no account
/// occurs twice, the approved block is final exactly when the accounts that endorse have more than
/// half of the total stake. In any list it is final exactly when the endorsements weigh more than
/// half of the total stake.
pub proof fn law_finality_is_a_matter_of_endorsements(
    approvals: Seq<ApprovalView>,
    witness: Map<Seq<char>, ApprovalView>,
    endorsing: Set<Seq<char>>,
    stakes: Map<Seq<char>, Balance>,
)
    requires
        endorse(endorsing, witness),
    ensures
        lists(approvals, witness) ==> (approved_block_ds_final(approvals, stakes) <==> 2
            * stake_sum(stakes, endorsing) > stake_sum(stakes, stakes.dom())),
        approved_block_ds_final(approvals, stakes) <==> 2 * endorsements_stake(approvals, stakes)
            > stake_sum(stakes, stakes.dom()),
{
    lemma_endorse(endorsing, witness);
    if lists(approvals, witness) {
        lemma_listed_stake(approvals, witness, stakes);
    }
}

/// What happens to finality when one more approval is put into a list: one that endorses makes a
/// final block no less final, and one that does not makes no difference at all.
pub proof fn law_other_approvals_do_not_touch_finality(
    approvals: Seq<ApprovalView>,
    approval: ApprovalView,
    stakes: Map<Seq<char>, Balance>,
)
    ensures
        approved_block_ds_final(approvals, stakes) ==> approved_block_ds_final(
            approvals.push(approval),
            stakes,
        ),
        !approval.is_endorsement ==> (approved_block_ds_final(approvals.push(approval), stakes)
            <==> approved_block_ds_final(approvals, stakes)),
{
    law_listed_stakes_add_up(approvals, approval, stakes);
}

/// With `HalfStake`, blocks with too little behind them are refused and all others accepted: if no
/// account occurs twice, a block can be produced exactly when the senders have more than half of
/// the total stake, endorsing or not. In any list it can exactly when the approvals weigh more than
/// half of the total stake. With `SingleApproval` any approval will do, but there has to be one.
pub proof fn law_production_takes_more_than_half_of_the_stake(
    approvals: Seq<ApprovalView>,
    witness: Map<Seq<char>, ApprovalView>,
    stakes: Map<Seq<char>, Balance>,
)
    ensures
        lists(approvals, witness) ==> (approved_block_can_be_produced(
            DoomslugThresholdMode::HalfStake,
            approvals,
            stakes,
        ) <==> 2 * stake_sum(stakes, witness.dom()) > stake_sum(stakes, stakes.dom())),
        approved_block_can_be_produced(DoomslugThresholdMode::HalfStake, approvals, stakes) <==> 2
            * approvals_stake(approvals, stakes) > stake_sum(stakes, stakes.dom()),
        approved_block_can_be_produced(DoomslugThresholdMode::SingleApproval, approvals, stakes)
            <==> approvals != Seq::<ApprovalView>::empty(),
{
    if lists(approvals, witness) {
        lemma_listed_stake(approvals, witness, stakes);
    }
    if approvals.len() == 0 {
        assert(approvals =~= Seq::<ApprovalView>::empty());
    }
}

/// Two blocks that can be produced with `HalfStake`, under the same stakes and each with approvals
/// of which no two come from the same account, have an approving validator in common.
pub proof fn law_producible_blocks_share_an_approver(
    a: Seq<ApprovalView>,
    a_witness: Map<Seq<char>, ApprovalView>,
    b: Seq<ApprovalView>,
    b_witness: Map<Seq<char>, ApprovalView>,
    stakes: Map<Seq<char>, Balance>,
)
    requires
        stakes.dom().finite(),
        lists(a, a_witness),
        lists(b, b_witness),
        approved_block_can_be_produced(DoomslugThresholdMode::HalfStake, a, stakes),
        approved_block_can_be_produced(DoomslugThresholdMode::HalfStake, b, stakes),
    ensures
        exists|account: Seq<char>| #[trigger]
            a_witness.dom().contains(account) && b_witness.dom().contains(account)
                && stakes.dom().contains(account),
{
    lemma_listed_stake(a, a_witness, stakes);
    lemma_listed_stake(b, b_witness, stakes);
    law_majorities_share_a_validator(stakes, a_witness.dom(), b_witness.dom());
}

/// The block before is final for a participant exactly when it has approvals of it for the height
/// asked for, and those who endorse it have more than half of the total stake.
pub proof fn law_finality_of_the_previous_block(
    state: DoomslugView,
    prev_hash: Seq<u8>,
    target_height: BlockHeight,
    endorsing: Set<Seq<char>>,
)
    requires
        state.approval_tracking.dom().contains((prev_hash, target_height)) ==> endorse(
            endorsing,
            state.approval_tracking[(prev_hash, target_height)].witness,
        ),
    ensures
        state.is_prev_block_ds_final(prev_hash, target_height) <==> {
            let tracker = state.approval_tracking[(prev_hash, target_height)];
            &&& state.approval_tracking.dom().contains((prev_hash, target_height))
            &&& 2 * stake_sum(tracker.stakes, endorsing) > stake_sum(
                tracker.stakes,
                tracker.stakes.dom(),
            )
        },
{
    if state.approval_tracking.dom().contains((prev_hash, target_height)) {
        lemma_endorse(endorsing, state.approval_tracking[(prev_hash, target_height)].witness);
    }
}

// What the calls change.

/// An approval changes what is known of the block that it is for, and of no other. The stakes are
/// those that came with the first approval of the block. The answer speaks of the stake with this
/// approval counted: past the threshold if the senders have more than half of it (or if any sender
/// at all will do), ready if they have more than two thirds and those who endorse more than half.
/// The largest height past the threshold becomes that of the block exactly if the block is past the
/// threshold and higher. The time noted for the block is the first at which it was seen past the
/// threshold and not ready. Nothing else changes.
pub proof fn law_what_an_approval_changes(
    state: DoomslugView,
    now: Instant,
    approval: ApprovalView,
    stakes: Map<Seq<char>, Balance>,
    endorsing: Set<Seq<char>>,
    other: (Seq<u8>, BlockHeight),
)
    requires
        state.wf(),
        !state.approval_tracking.dom().contains((approval.parent_hash, approval.target_height))
            ==> stakes.dom().finite() && total_stake(stakes) * 2 <= u128::MAX,
        other != (approval.parent_hash, approval.target_height),
        endorse(
            endorsing,
            state.with_approval(now, approval, stakes).approval_tracking[(
                approval.parent_hash,
                approval.target_height,
            )].witness,
        ),
    ensures
        ({
            let key = (approval.parent_hash, approval.target_height);
            let after = state.with_approval(now, approval, stakes);
            let readiness = state.tracker_with(approval, stakes).readiness(now);
            let known = state.approval_tracking.dom().contains(key);
            let before = state.approval_tracking[key];
            let tracker = after.approval_tracking[key];
            let witness = if known {
                before.witness
            } else {
                Map::empty()
            };
            let noted = if known {
                before.time_passed_threshold
            } else {
                None
            };
            let total = stake_sum(tracker.stakes, tracker.stakes.dom());
            let approved = stake_sum(tracker.stakes, tracker.witness.dom());
            let endorsed = stake_sum(tracker.stakes, endorsing);
            let ready = 3 * approved > 2 * total && 2 * endorsed > total;
            let past = 2 * approved > total || state.threshold_mode
                == DoomslugThresholdMode::SingleApproval;
            &&& after.approval_tracking.dom().contains(key)
            &&& after.approval_tracking.dom().contains(other)
                <==> state.approval_tracking.dom().contains(other)
            &&& state.approval_tracking.dom().contains(other) ==> after.approval_tracking[other]
                == state.approval_tracking[other]
            &&& tracker.stakes == if known {
                before.stakes
            } else {
                stakes
            }
            &&& tracker.threshold_mode == state.threshold_mode
            &&& tracker.witness == if witness.dom().contains(approval.account_id) {
                witness
            } else {
                witness.insert(approval.account_id, approval)
            }
            &&& tracker.time_passed_threshold == if noted is None && past && !ready {
                Some(now)
            } else {
                noted
            }
            &&& (readiness == DoomslugBlockProductionReadiness::ReadyToProduce <==> ready)
            &&& (readiness == DoomslugBlockProductionReadiness::NotReady <==> !past)
            &&& readiness matches DoomslugBlockProductionReadiness::PassedThreshold(when)
                ==> tracker.time_passed_threshold == Some(when)
            &&& after.largest_threshold_height == if past && approval.target_height
                > state.largest_threshold_height {
                approval.target_height
            } else {
                state.largest_threshold_height
            }
            &&& after == (DoomslugView {
                approval_tracking: after.approval_tracking,
                largest_threshold_height: after.largest_threshold_height,
                ..state
            })
        }),
{
    let key = (approval.parent_hash, approval.target_height);
    let after = state.with_approval(now, approval, stakes);
    crate::doomslug::lemma_with_approval_wf(state, now, approval, stakes);
    let tracker = after.approval_tracking[key];
    let counted = state.tracker_with(approval, stakes);
    assert(after.approval_tracking.dom().contains(key));
    assert(counted.wf());
    assert(counted.witness == tracker.witness);
    law_readiness_is_a_matter_of_stake(counted, now, endorsing);
    assert(counted.witness.dom().contains(approval.account_id));
    law_stakes_are_nested(counted);
}

/// When the tip moves, the participant endorses it whenever nothing forbids it, and only then: the
/// approval sent is an endorsement, and the height of the tip becomes the largest one endorsed, if
/// and only if that height is larger than the largest one promised to be skipped and larger than
/// the largest one endorsed before. The timer starts anew for the next height, with the same
/// delays. The largest height with finality is the larger of the one before and the one given.
/// Nothing else changes.
pub proof fn law_the_tip_is_endorsed_unless_that_is_forbidden(
    state: DoomslugView,
    now: Instant,
    tip: TipView,
    last_ds_final_height: BlockHeight,
)
    requires
        state.wf(),
        tip.height < BlockHeight::MAX,
    ensures
        ({
            let after = state.with_tip(now, tip, last_ds_final_height);
            let allowed = tip.height > state.largest_promised_skip_height && tip.height
                > state.largest_endorsed_height;
            let sent = after.approval(
                (tip.height + 1) as BlockHeight,
                state.can_endorse(tip.height),
            );
            &&& sent is Some <==> state.me is Some
            &&& sent matches Some(approval) ==> {
                &&& approval.is_endorsement <==> allowed
                &&& approval.parent_hash == tip.block_hash
                &&& approval.reference_hash == tip.reference_hash
                &&& approval.target_height == tip.height + 1
            }
            &&& after.largest_endorsed_height == if allowed {
                tip.height
            } else {
                state.largest_endorsed_height
            }
            &&& after.tip == tip
            &&& after.timer.height == tip.height + 1
            &&& after.timer.started == now
            &&& after.timer.min_delay == state.timer.min_delay
            &&& after.timer.delay_step == state.timer.delay_step
            &&& after.timer.max_delay == state.timer.max_delay
            &&& after.largest_ds_final_height >= last_ds_final_height
            &&& after.largest_ds_final_height >= state.largest_ds_final_height
            &&& after.largest_ds_final_height == last_ds_final_height
                || after.largest_ds_final_height == state.largest_ds_final_height
            &&& after == (DoomslugView {
                tip: after.tip,
                timer: after.timer,
                largest_endorsed_height: after.largest_endorsed_height,
                largest_ds_final_height: after.largest_ds_final_height,
                ..state
            })
        }),
{
    law_approvals_are_of_the_tip_and_signed(
        state.with_tip(now, tip, last_ds_final_height),
        (tip.height + 1) as BlockHeight,
        state.can_endorse(tip.height),
    );
}

/// Removing the approvals of a block hands out those that are known of it, and takes away what is
/// known of it and nothing else.
pub proof fn law_what_removing_approvals_changes(
    state: DoomslugView,
    prev_hash: Seq<u8>,
    target_height: BlockHeight,
    account: Seq<char>,
    other: (Seq<u8>, BlockHeight),
)
    requires
        other != (prev_hash, target_height),
    ensures
        ({
            let key = (prev_hash, target_height);
            let known = state.approval_tracking.dom().contains(key);
            let handed_out = state.witness(prev_hash, target_height);
            let after = state.without_witness(prev_hash, target_height);
            &&& handed_out.dom().contains(account) <==> known
                && state.approval_tracking[key].witness.dom().contains(account)
            &&& handed_out.dom().contains(account) ==> handed_out[account]
                == state.approval_tracking[key].witness[account]
            &&& !after.approval_tracking.dom().contains(key)
            &&& after.approval_tracking.dom().contains(other)
                <==> state.approval_tracking.dom().contains(other)
            &&& state.approval_tracking.dom().contains(other) ==> after.approval_tracking[other]
                == state.approval_tracking[other]
            &&& after == (DoomslugView { approval_tracking: after.approval_tracking, ..state })
        }),
{
}

// Producing blocks.

/// A block may be produced on top of the tip, at any height whatever, exactly when the approvals of
/// the tip for that height suffice: at any time, if the senders have more than two thirds of the
/// total stake and those who endorse more than half; and otherwise if the senders have more than
/// half (or if any sender at all will do) and more than half of the timer's delay has gone by since
/// the time noted for passing the threshold, which there is in that case.
pub proof fn law_when_a_block_may_be_produced(
    state: DoomslugView,
    now: Instant,
    target_height: BlockHeight,
    endorsing: Set<Seq<char>>,
)
    requires
        state.wf(),
        state.approval_tracking.dom().contains((state.tip.block_hash, target_height)),
        endorse(
            endorsing,
            state.approval_tracking[(state.tip.block_hash, target_height)].witness,
        ),
    ensures
        ({
            let tracker = state.approval_tracking[(state.tip.block_hash, target_height)];
            let total = stake_sum(tracker.stakes, tracker.stakes.dom());
            let approved = stake_sum(tracker.stakes, tracker.witness.dom());
            let endorsed = stake_sum(tracker.stakes, endorsing);
            let ready = 3 * approved > 2 * total && 2 * endorsed > total;
            let past = 2 * approved > total || state.threshold_mode
                == DoomslugThresholdMode::SingleApproval;
            let distance = if state.timer.height > state.largest_ds_final_height {
                (state.timer.height - state.largest_ds_final_height) as nat
            } else {
                0
            };
            let waited = tracker.time_passed_threshold matches Some(when) && 2 * (now.nanos
                - when.nanos) > state.timer.delay(distance);
            &&& ready ==> state.ready_to_produce(now, target_height)
            &&& past && waited ==> state.ready_to_produce(now, target_height)
            &&& state.ready_to_produce(now, target_height) ==> ready || past && waited
            &&& past && !ready ==> tracker.time_passed_threshold is Some
        }),
{
    let tracker = state.approval_tracking[(state.tip.block_hash, target_height)];
    law_readiness_is_a_matter_of_stake(tracker, now, endorsing);
    lemma_endorse(endorsing, tracker.witness);
}

/// Without any approval of the tip for a height, no block may be produced at that height.
pub proof fn law_no_block_without_approvals(
    state: DoomslugView,
    now: Instant,
    target_height: BlockHeight,
)
    requires
        !state.approval_tracking.dom().contains((state.tip.block_hash, target_height)),
    ensures
        !state.ready_to_produce(now, target_height),
{
}

/// Asking whether a block may be produced is allowed whenever no delay and no time that comes up is
/// too large to be represented.
pub proof fn law_production_times_fit_away_from_the_limits(
    state: DoomslugView,
    now: Instant,
    target_height: BlockHeight,
)
    requires
        state.timer.delay_fits(state.timer.height as nat),
        now.nanos + state.timer.max_delay.nanos <= u128::MAX,
        forall|key: (Seq<u8>, BlockHeight)| #[trigger]
            state.approval_tracking.dom().contains(key) ==> (
            state.approval_tracking[key].time_passed_threshold matches Some(when) ==> when.nanos
                + state.timer.max_delay.nanos <= u128::MAX),
    ensures
        state.production_time_fits(now, target_height),
{
    crate::timer::law_delay_grows_up_to_its_cap(
        state.timer,
        state.heights_since_final(),
        state.timer.height as nat,
    );
}

// The timer.

/// The delay begins with the smallest one and grows by a step with each height, as far as the cap
/// lets it and 32 bits count; from there on it stays. No distance at all counts as one height.
pub proof fn law_the_delay_grows_step_by_step(timer: DoomslugTimer, n: nat)
    ensures
        timer.delay(1) == if timer.min_delay.nanos < timer.max_delay.nanos {
            timer.min_delay.nanos
        } else {
            timer.max_delay.nanos
        },
        timer.delay(0) == timer.delay(1),
        1 <= n < u32::MAX ==> timer.delay(n + 1) == if timer.delay(n) + timer.delay_step.nanos
            < timer.max_delay.nanos {
            timer.delay(n) + timer.delay_step.nanos
        } else {
            timer.max_delay.nanos as int
        },
        n >= u32::MAX ==> timer.delay(n) == timer.delay(u32::MAX as nat),
        1 <= n <= u32::MAX ==> (timer.delay_fits(n) <==> timer.min_delay.nanos
            + timer.delay_step.nanos * (n - 1) <= u128::MAX),
        n > u32::MAX ==> (timer.delay_fits(n) <==> timer.delay_fits(u32::MAX as nat)),
        timer.delay_fits(0) <==> timer.delay_fits(1),
{
    let step = timer.delay_step.nanos as int;
    assert(step * 0 == 0);
    if 1 <= n < u32::MAX {
        assert(step * n == step * (n - 1) + step) by (nonlinear_arith);
        assert(step * (n - 1) >= 0) by (nonlinear_arith)
            requires
                step >= 0,
                n >= 1,
        ;
    }
}

/// Which heights the timer skips: it sends a message for a height if and only if it has passed that
/// height, and the height is larger than the tip's and than any endorsed (and the participant has a
/// name to sign with). The message for a height is the non-endorsing approval of the tip for the
/// height after it. Every such height is promised to be skipped. The timer keeps its delays, and
/// nothing else changes.
pub proof fn law_which_heights_the_timer_skips(
    state: DoomslugView,
    cur_time: Instant,
    iters: nat,
    height: BlockHeight,
)
    requires
        state.wf(),
        state.timer_fits(cur_time, iters),
    ensures
        ({
            let after = state.after_timer(cur_time, iters);
            let messages = state.timer_messages(cur_time, iters);
            let skipped = state.timer.height <= height < after.timer.height && height
                > state.tip.height && height > state.largest_endorsed_height;
            &&& (exists|i: int|
                0 <= i < messages.len() && (#[trigger] messages[i]).target_height == height + 1)
                <==> skipped && state.me is Some
            &&& forall|i: int|
                0 <= i < messages.len() ==> Some(#[trigger] messages[i]) == state.approval(
                    messages[i].target_height,
                    false,
                )
            &&& skipped ==> height <= after.largest_promised_skip_height
            &&& after.largest_promised_skip_height > state.largest_promised_skip_height ==> {
                let promised = after.largest_promised_skip_height;
                &&& state.timer.height <= promised < after.timer.height
                &&& promised > state.tip.height
                &&& promised > state.largest_endorsed_height
            }
            &&& after == (DoomslugView {
                timer: DoomslugTimer {
                    started: after.timer.started,
                    height: after.timer.height,
                    ..state.timer
                },
                largest_promised_skip_height: after.largest_promised_skip_height,
                ..state
            })
        }),
    decreases iters,
{
    crate::laws::law_the_timer_sends_skip_messages(state, cur_time, iters);
    crate::laws::law_the_timer_skips_exactly_the_heights_passed(state, cur_time, iters);
    let after = state.after_timer(cur_time, iters);
    let messages = state.timer_messages(cur_time, iters);
    let first = crate::laws::first_skip(state);
    lemma_timer_keeps_its_delays(state, cur_time, iters);
    law_approvals_are_of_the_tip_and_signed(state, 0, false);
    if state.me is Some && state.timer.height <= height < after.timer.height && height
        > state.tip.height && height > state.largest_endorsed_height {
        let i = height - first;
        assert(messages[i] == state.approval((first + i + 1) as BlockHeight, false)->0);
        assert(messages[i].target_height == height + 1);
    }
}

proof fn lemma_timer_keeps_its_delays(state: DoomslugView, cur_time: Instant, iters: nat)
    ensures
        state.after_timer(cur_time, iters).timer.min_delay == state.timer.min_delay,
        state.after_timer(cur_time, iters).timer.delay_step == state.timer.delay_step,
        state.after_timer(cur_time, iters).timer.max_delay == state.timer.max_delay,
    decreases iters,
{
    if iters > 0 && state.timer_due(cur_time) {
        lemma_timer_keeps_its_delays(state.timer_step(), cur_time, (iters - 1) as nat);
    }
}

/// The timer moves on to the next height exactly when its delay is over, and starts anew at that
/// very moment, however late it is looked at; the delay is that of the distance from the last
/// height with finality. What then happens is what happens to a timer that stands at the next
/// height in the first place.
pub proof fn law_the_timer_moves_on_when_its_delay_is_over(
    state: DoomslugView,
    cur_time: Instant,
    iters: nat,
)
    requires
        iters > 0,
        state.timer_fits(cur_time, iters),
    ensures
        ({
            let distance = if state.timer.height > state.largest_ds_final_height {
                (state.timer.height - state.largest_ds_final_height) as nat
            } else {
                0
            };
            let deadline = state.timer.started.nanos + state.timer.delay(distance);
            let once = state.after_timer(cur_time, 1);
            let after = state.after_timer(cur_time, iters);
            &&& cur_time.nanos < deadline ==> after == state && state.timer_messages(
                cur_time,
                iters,
            ) == Seq::<ApprovalView>::empty()
            &&& cur_time.nanos >= deadline ==> {
                &&& once.timer.height == state.timer.height + 1
                &&& once.timer.started.nanos == deadline
                &&& after == once.after_timer(cur_time, (iters - 1) as nat)
                &&& state.timer_messages(cur_time, iters) == state.timer_messages(cur_time, 1)
                    + once.timer_messages(cur_time, (iters - 1) as nat)
            }
            &&& state.after_timer(cur_time, 0) == state
            &&& state.timer_messages(cur_time, 0) == Seq::<ApprovalView>::empty()
        }),
{
    let next = state.timer_step();
    assert(next.after_timer(cur_time, 0) == next);
    assert(next.timer_messages(cur_time, 0) == Seq::<ApprovalView>::empty());
    assert(state.after_timer(cur_time, 1) == if state.timer_due(cur_time) {
        next
    } else {
        state
    });
    assert(state.timer_message() + Seq::<ApprovalView>::empty() =~= state.timer_message());
}

/// The timer can be looked at exactly when the delay and its end can be represented and, if the
/// delay is over, there is a next height and the timer can be looked at again there, as long as the
/// bound on the number of steps lasts.
pub proof fn law_when_the_timer_can_be_looked_at(
    state: DoomslugView,
    cur_time: Instant,
    iters: nat,
)
    requires
        iters > 0,
    ensures
        ({
            let distance = if state.timer.height > state.largest_ds_final_height {
                (state.timer.height - state.largest_ds_final_height) as nat
            } else {
                0
            };
            let deadline = state.timer.started.nanos + state.timer.delay(distance);
            &&& state.timer_fits(cur_time, 0)
            &&& state.timer_fits(cur_time, iters) <==> {
                &&& state.timer.delay_fits(distance)
                &&& deadline <= u128::MAX
                &&& cur_time.nanos >= deadline ==> state.timer.height < BlockHeight::MAX
                    && state.after_timer(cur_time, 1).timer_fits(cur_time, (iters - 1) as nat)
            }
        }),
{
    let next = state.timer_step();
    assert(next.after_timer(cur_time, 0) == next);
    assert(state.after_timer(cur_time, 1) == if state.timer_due(cur_time) {
        next
    } else {
        state
    });
}

/// A later instant lies as many nanoseconds later as the span has.
pub proof fn law_instants_move_by_the_span(instant: Instant, span: Duration)
    requires
        instant.nanos + span.nanos <= u128::MAX,
    ensures
        vstd::std_specs::ops::AddSpec::add_req(instant, span),
        vstd::std_specs::ops::AddSpec::add_spec(instant, span).nanos == instant.nanos + span.nanos,
{
}

} // verus!

//! Who has how much at stake.
use crate::approval::{Approval, ApprovalView};
use crate::assoc::{
    at_key, distinct_keys, lemma_pair_in_map, lemma_pairs_map_finite, lemma_pairs_map_push,
    lemma_pairs_map_update, pairs_map,
};
use crate::types::{AccountId, Balance, ValidatorStake};
use vstd::prelude::*;

verus! {

/// What `account` has at stake: nothing, if it is not a validator.
pub open spec fn stake_of(stakes: Map<Seq<char>, Balance>, account: Seq<char>) -> nat {
    if stakes.dom().contains(account) {
        stakes[account] as nat
    } else {
        0
    }
}

/// Adds the stake of an account to a sum.
pub open spec fn add_stake(stakes: Map<Seq<char>, Balance>) -> spec_fn(nat, Seq<char>) -> nat {
    |sum: nat, account: Seq<char>| sum + stake_of(stakes, account)
}

/// What a finite set of accounts has at stake together.
pub open spec fn stake_sum(stakes: Map<Seq<char>, Balance>, accounts: Set<Seq<char>>) -> nat {
    accounts.fold(0nat, add_stake(stakes))
}

/// What all validators have at stake together.
pub open spec fn total_stake(stakes: Map<Seq<char>, Balance>) -> nat {
    stake_sum(stakes, stakes.dom())
}

pub proof fn lemma_stake_sum_empty(stakes: Map<Seq<char>, Balance>)
    ensures
        stake_sum(stakes, Set::empty()) == 0,
{
    vstd::set::fold::lemma_fold_empty(0nat, add_stake(stakes));
}

pub proof fn lemma_stake_sum_insert(
    stakes: Map<Seq<char>, Balance>,
    accounts: Set<Seq<char>>,
    account: Seq<char>,
)
    requires
        accounts.finite(),
        !accounts.contains(account),
    ensures
        stake_sum(stakes, accounts.insert(account)) == stake_sum(stakes, accounts) + stake_of(
            stakes,
            account,
        ),
{
    assert(vstd::set::fold::is_fun_commutative(add_stake(stakes)));
    vstd::set::fold::lemma_fold_insert(accounts, 0nat, add_stake(stakes), account);
}

/// More accounts have no less at stake.
pub proof fn lemma_stake_sum_subset(
    stakes: Map<Seq<char>, Balance>,
    some: Set<Seq<char>>,
    more: Set<Seq<char>>,
)
    requires
        more.finite(),
        some.subset_of(more),
    ensures
        stake_sum(stakes, some) <= stake_sum(stakes, more),
    decreases more.len(),
{
    if some =~= more {
    } else {
        let account = choose|account: Seq<char>|
            more.contains(account) && !some.contains(account);
        let rest = more.remove(account);
        lemma_stake_sum_subset(stakes, some, rest);
        lemma_stake_sum_insert(stakes, rest, account);
        assert(rest.insert(account) =~= more);
    }
}

/// Only validators count: accounts that are not validators add nothing.
pub proof fn lemma_stake_sum_of_validators(
    stakes: Map<Seq<char>, Balance>,
    accounts: Set<Seq<char>>,
)
    requires
        accounts.finite(),
    ensures
        stake_sum(stakes, accounts) == stake_sum(stakes, accounts.intersect(stakes.dom())),
    decreases accounts.len(),
{
    if accounts =~= Set::empty() {
        assert(accounts.intersect(stakes.dom()) =~= accounts);
    } else {
        let account = accounts.choose();
        let rest = accounts.remove(account);
        assert(rest.insert(account) =~= accounts);
        lemma_stake_sum_of_validators(stakes, rest);
        lemma_stake_sum_insert(stakes, rest, account);
        let kept = rest.intersect(stakes.dom());
        if stakes.dom().contains(account) {
            assert(accounts.intersect(stakes.dom()) =~= kept.insert(account));
            lemma_stake_sum_insert(stakes, kept, account);
        } else {
            assert(accounts.intersect(stakes.dom()) =~= kept);
        }
    }
}

/// No set of accounts has more at stake than all validators together.
pub proof fn lemma_stake_sum_at_most_total(
    stakes: Map<Seq<char>, Balance>,
    accounts: Set<Seq<char>>,
)
    requires
        stakes.dom().finite(),
        accounts.finite(),
    ensures
        stake_sum(stakes, accounts) <= total_stake(stakes),
{
    lemma_stake_sum_of_validators(stakes, accounts);
    lemma_stake_sum_subset(stakes, accounts.intersect(stakes.dom()), stakes.dom());
}

/// Two sets of accounts that have none in common have at stake together what they have one by one.
pub proof fn lemma_stake_sum_disjoint(
    stakes: Map<Seq<char>, Balance>,
    a: Set<Seq<char>>,
    b: Set<Seq<char>>,
)
    requires
        a.finite(),
        b.finite(),
        a.disjoint(b),
    ensures
        stake_sum(stakes, a.union(b)) == stake_sum(stakes, a) + stake_sum(stakes, b),
    decreases b.len(),
{
    if b =~= Set::empty() {
        assert(a.union(b) =~= a);
        lemma_stake_sum_empty(stakes);
    } else {
        let account = b.choose();
        let rest = b.remove(account);
        assert(rest.insert(account) =~= b);
        assert(a.union(rest).insert(account) =~= a.union(b));
        lemma_stake_sum_disjoint(stakes, a, rest);
        lemma_stake_sum_insert(stakes, rest, account);
        lemma_stake_sum_insert(stakes, a.union(rest), account);
    }
}

/// Any two sets of accounts with more than half of the stake each have a validator in common.
pub proof fn law_majorities_share_a_validator(
    stakes: Map<Seq<char>, Balance>,
    a: Set<Seq<char>>,
    b: Set<Seq<char>>,
)
    requires
        stakes.dom().finite(),
        a.finite(),
        b.finite(),
        stake_sum(stakes, a) > total_stake(stakes) / 2,
        stake_sum(stakes, b) > total_stake(stakes) / 2,
    ensures
        exists|account: Seq<char>| #[trigger]
            a.contains(account) && b.contains(account) && stakes.dom().contains(account),
{
    if !(exists|account: Seq<char>| #[trigger]
        a.contains(account) && b.contains(account) && stakes.dom().contains(account)) {
        let of_a = a.intersect(stakes.dom());
        let of_b = b.intersect(stakes.dom());
        assert(of_a.disjoint(of_b));
        lemma_stake_sum_of_validators(stakes, a);
        lemma_stake_sum_of_validators(stakes, b);
        lemma_stake_sum_disjoint(stakes, of_a, of_b);
        lemma_stake_sum_subset(stakes, of_a.union(of_b), stakes.dom());
    }
}

/// Stakes by account. No account occurs twice.
pub struct StakeMap {
    entries: Vec<(AccountId, Balance)>,
}

impl View for StakeMap {
    type V = Map<Seq<char>, Balance>;

    closed spec fn view(&self) -> Map<Seq<char>, Balance> {
        pairs_map(self.pairs())
    }
}

/// The accounts and stakes of a list of validators.
pub open spec fn validator_pairs(validators: Seq<ValidatorStake>) -> Seq<(Seq<char>, Balance)> {
    Seq::new(validators.len(), |i: int| (validators[i].account_id@, validators[i].amount))
}

impl StakeMap {
    closed spec fn pairs(&self) -> Seq<(Seq<char>, Balance)> {
        Seq::new(self.entries.len() as nat, |i: int| (self.entries[i].0@, self.entries[i].1))
    }

    /// No account occurs twice.
    pub closed spec fn wf(&self) -> bool {
        distinct_keys(self.pairs())
    }

    pub fn new() -> (stakes: StakeMap)
        ensures
            stakes.wf(),
            stakes@ == Map::<Seq<char>, Balance>::empty(),
    {
        let stakes = StakeMap { entries: Vec::new() };
        assert(stakes@ =~= Map::<Seq<char>, Balance>::empty());
        stakes
    }

    /// Where `account` stands, if it stands anywhere.
    fn position(&self, account: &AccountId) -> (position: Option<usize>)
        ensures
            position is Some <==> self@.dom().contains(account@),
            position matches Some(i) ==> i < self.entries.len() && self.entries[i as int].0@
                == account@,
    {
        let mut i: usize = 0;
        while i < self.entries.len()
            invariant
                i <= self.entries.len(),
                forall|j: int| 0 <= j < i ==> self.entries[j].0@ != account@,
            decreases self.entries.len() - i,
        {
            if self.entries[i].0 == *account {
                proof {
                    assert(at_key(self.pairs(), account@, i as int));
                }
                return Some(i);
            }
            i += 1;
        }
        proof {
            if self@.dom().contains(account@) {
                let j = choose|j: int| at_key(self.pairs(), account@, j);
                assert(self.entries[j].0@ != account@);
            }
        }
        None
    }

    /// Sets the stake of an account.
    pub fn insert(&mut self, account: AccountId, amount: Balance)
        requires
            old(self).wf(),
        ensures
            final(self).wf(),
            final(self)@ == old(self)@.insert(account@, amount),
    {
        match self.position(&account) {
            Some(i) => {
                let ghost key = account@;
                self.entries.set(i, (account, amount));
                proof {
                    lemma_pairs_map_update(old(self).pairs(), i as int, amount);
                    assert(self.pairs() =~= old(self).pairs().update(i as int, (key, amount)));
                }
            },
            None => {
                let ghost key = account@;
                self.entries.push((account, amount));
                proof {
                    lemma_pairs_map_push(old(self).pairs(), key, amount);
                    assert(self.pairs() =~= old(self).pairs().push((key, amount)));
                }
            },
        }
    }

    /// The stake of an account, if it has any.
    pub fn get(&self, account: &AccountId) -> (amount: Option<Balance>)
        requires
            self.wf(),
        ensures
            amount == if self@.dom().contains(account@) {
                Some(self@[account@])
            } else {
                None
            },
    {
        match self.position(account) {
            Some(i) => {
                proof {
                    lemma_pair_in_map(self.pairs(), i as int);
                }
                Some(self.entries[i].1)
            },
            None => None,
        }
    }

    /// What `account` has at stake, which is nothing if it is not listed.
    pub fn stake_of(&self, account: &AccountId) -> (amount: Balance)
        requires
            self.wf(),
        ensures
            amount == stake_of(self@, account@),
    {
        match self.get(account) {
            Some(amount) => amount,
            None => 0,
        }
    }

    /// The sum of all stakes.
    pub fn total(&self) -> (total: Balance)
        requires
            self.wf(),
            total_stake(self@) <= u128::MAX,
        ensures
            total == total_stake(self@),
    {
        let ghost pairs = self.pairs();
        let mut total: Balance = 0;
        let mut i: usize = 0;
        proof {
            lemma_stake_sum_empty(self@);
            lemma_pairs_map_finite(pairs);
            assert(pairs_map(pairs.take(0)).dom() =~= Set::empty());
        }
        while i < self.entries.len()
            invariant
                self.wf(),
                pairs == self.pairs(),
                self@.dom().finite(),
                total_stake(self@) <= u128::MAX,
                i <= self.entries.len(),
                total == stake_sum(self@, pairs_map(pairs.take(i as int)).dom()),
            decreases self.entries.len() - i,
        {
            proof {
                let seen = pairs.take(i as int);
                let (key, amount) = pairs[i as int];
                assert(pairs.take(i + 1) =~= seen.push((key, amount)));
                assert(distinct_keys(seen));
                assert(!pairs_map(seen).dom().contains(key)) by {
                    if pairs_map(seen).dom().contains(key) {
                        let j = choose|j: int| at_key(seen, key, j);
                        assert(pairs[j].0 == pairs[i as int].0);
                    }
                }
                lemma_pairs_map_push(seen, key, amount);
                lemma_pairs_map_finite(seen);
                lemma_stake_sum_insert(self@, pairs_map(seen).dom(), key);
                assert(pairs_map(pairs.take(i + 1)).dom() =~= pairs_map(seen).dom().insert(key));
                lemma_pair_in_map(pairs, i as int);
                lemma_pairs_map_finite(pairs.take(i + 1));
                lemma_stake_sum_at_most_total(self@, pairs_map(pairs.take(i + 1)).dom());
            }
            total = total + self.entries[i].1;
            i += 1;
        }
        assert(pairs.take(i as int) =~= pairs);
        total
    }

    /// The stakes of a list of validators that names no account twice.
    pub fn from_validators(validators: &Vec<ValidatorStake>) -> (stakes: StakeMap)
        requires
            distinct_keys(validator_pairs(validators@)),
        ensures
            stakes.wf(),
            stakes@ == pairs_map(validator_pairs(validators@)),
    {
        let ghost pairs = validator_pairs(validators@);
        let mut stakes = StakeMap::new();
        let mut i: usize = 0;
        assert(pairs_map(pairs.take(0)) =~= Map::<Seq<char>, Balance>::empty());
        while i < validators.len()
            invariant
                pairs == validator_pairs(validators@),
                distinct_keys(pairs),
                i <= validators.len(),
                stakes.wf(),
                stakes@ == pairs_map(pairs.take(i as int)),
            decreases validators.len() - i,
        {
            proof {
                let seen = pairs.take(i as int);
                let (key, amount) = pairs[i as int];
                assert(pairs.take(i + 1) =~= seen.push((key, amount)));
                assert(distinct_keys(seen));
                assert(!pairs_map(seen).dom().contains(key)) by {
                    if pairs_map(seen).dom().contains(key) {
                        let j = choose|j: int| at_key(seen, key, j);
                        assert(pairs[j].0 == pairs[i as int].0);
                    }
                }
                lemma_pairs_map_push(seen, key, amount);
            }
            stakes.insert(validators[i].account_id.clone(), validators[i].amount);
            i += 1;
        }
        assert(pairs.take(i as int) =~= pairs);
        stakes
    }

    /// There are finitely many accounts.
    pub proof fn lemma_finite(&self)
        ensures
            self@.dom().finite(),
    {
        lemma_pairs_map_finite(self.pairs());
    }
}

/// What the senders of a list of approvals have at stake; a sender that occurs more than once
/// counts as often as it occurs.
pub open spec fn approvals_stake(
    approvals: Seq<ApprovalView>,
    stakes: Map<Seq<char>, Balance>,
) -> nat
    decreases approvals.len(),
{
    if approvals.len() == 0 {
        0
    } else {
        approvals_stake(approvals.drop_last(), stakes) + stake_of(
            stakes,
            approvals.last().account_id,
        )
    }
}

/// Tells endorsements from other approvals.
pub open spec fn is_endorsement() -> spec_fn(ApprovalView) -> bool {
    |approval: ApprovalView| approval.is_endorsement
}

/// What the senders of the endorsements among a list of approvals have at stake.
pub open spec fn endorsements_stake(
    approvals: Seq<ApprovalView>,
    stakes: Map<Seq<char>, Balance>,
) -> nat {
    approvals_stake(approvals.filter(is_endorsement()), stakes)
}

/// What the approvals of a list say.
pub open spec fn approval_views(approvals: Seq<Approval>) -> Seq<ApprovalView> {
    Seq::new(approvals.len(), |i: int| approvals[i]@)
}

/// The approvals of a list, each under the account that sent it.
pub open spec fn by_account(approvals: Seq<ApprovalView>) -> Seq<(Seq<char>, ApprovalView)> {
    Seq::new(approvals.len(), |i: int| (approvals[i].account_id, approvals[i]))
}

/// `approvals` lists what `witness` holds, each approval once, in some order.
pub open spec fn lists(
    approvals: Seq<ApprovalView>,
    witness: Map<Seq<char>, ApprovalView>,
) -> bool {
    distinct_keys(by_account(approvals)) && pairs_map(by_account(approvals)) == witness
}

/// The accounts that sent an endorsement.
pub open spec fn endorsers(witness: Map<Seq<char>, ApprovalView>) -> Set<Seq<char>> {
    witness.dom().filter(|account: Seq<char>| witness[account].is_endorsement)
}

/// The endorsers after one more account has sent its approval.
pub proof fn lemma_endorsers_insert(
    witness: Map<Seq<char>, ApprovalView>,
    account: Seq<char>,
    approval: ApprovalView,
)
    requires
        !witness.dom().contains(account),
    ensures
        endorsers(witness.insert(account, approval)) == if approval.is_endorsement {
            endorsers(witness).insert(account)
        } else {
            endorsers(witness)
        },
{
    let more = witness.insert(account, approval);
    if approval.is_endorsement {
        assert(endorsers(more) =~= endorsers(witness).insert(account));
    } else {
        assert(endorsers(more) =~= endorsers(witness));
    }
}

/// Where no account occurs twice, a list of approvals weighs what its senders have at stake.
pub proof fn lemma_listed_stake(
    approvals: Seq<ApprovalView>,
    witness: Map<Seq<char>, ApprovalView>,
    stakes: Map<Seq<char>, Balance>,
)
    requires
        lists(approvals, witness),
    ensures
        witness.dom().finite(),
        approvals_stake(approvals, stakes) == stake_sum(stakes, witness.dom()),
        endorsements_stake(approvals, stakes) == stake_sum(stakes, endorsers(witness)),
    decreases approvals.len(),
{
    reveal(Seq::filter);
    lemma_pairs_map_finite(by_account(approvals));
    if approvals.len() == 0 {
        assert(witness.dom() =~= Set::empty());
        assert(endorsers(witness) =~= Set::empty());
        lemma_stake_sum_empty(stakes);
        assert(approvals.filter(is_endorsement()) =~= Seq::empty());
    } else {
        let fewer = approvals.drop_last();
        let last = approvals.last();
        let pairs = by_account(fewer);
        let rest = pairs_map(pairs);
        assert(by_account(approvals) =~= pairs.push((last.account_id, last)));
        assert(distinct_keys(pairs)) by {
            assert forall|i: int, j: int|
                0 <= i < pairs.len() && 0 <= j < pairs.len() && #[trigger] pairs[i].0
                    == #[trigger] pairs[j].0 implies i == j by {
                assert(by_account(approvals)[i].0 == by_account(approvals)[j].0);
            }
        }
        assert(!rest.dom().contains(last.account_id)) by {
            if rest.dom().contains(last.account_id) {
                let j = choose|j: int| at_key(pairs, last.account_id, j);
                assert(by_account(approvals)[j].0 == by_account(approvals)[fewer.len() as int].0);
            }
        }
        lemma_pairs_map_push(pairs, last.account_id, last);
        lemma_listed_stake(fewer, rest, stakes);
        assert(witness.dom() =~= rest.dom().insert(last.account_id));
        lemma_stake_sum_insert(stakes, rest.dom(), last.account_id);
        lemma_endorsers_insert(rest, last.account_id, last);
        if last.is_endorsement {
            lemma_stake_sum_insert(stakes, endorsers(rest), last.account_id);
            let endorsements = fewer.filter(is_endorsement());
            assert(approvals.filter(is_endorsement()) == endorsements.push(last));
            assert(endorsements.push(last).drop_last() =~= endorsements);
        }
    }
}

/// A list weighs no less than what it begins with.
pub proof fn lemma_prefix_stake(
    approvals: Seq<ApprovalView>,
    stakes: Map<Seq<char>, Balance>,
    n: int,
)
    requires
        0 <= n <= approvals.len(),
    ensures
        approvals_stake(approvals.take(n), stakes) <= approvals_stake(approvals, stakes),
        endorsements_stake(approvals.take(n), stakes) <= endorsements_stake(approvals, stakes),
    decreases approvals.len() - n,
{
    if n == approvals.len() {
        assert(approvals.take(n) =~= approvals);
    } else {
        lemma_prefix_stake(approvals, stakes, n + 1);
        lemma_next_stake(approvals, stakes, n);
    }
}

/// What the next approval of a list adds.
pub proof fn lemma_next_stake(
    approvals: Seq<ApprovalView>,
    stakes: Map<Seq<char>, Balance>,
    n: int,
)
    requires
        0 <= n < approvals.len(),
    ensures
        approvals_stake(approvals.take(n + 1), stakes) == approvals_stake(
            approvals.take(n),
            stakes,
        ) + stake_of(stakes, approvals[n].account_id),
        endorsements_stake(approvals.take(n + 1), stakes) == endorsements_stake(
            approvals.take(n),
            stakes,
        ) + if approvals[n].is_endorsement {
            stake_of(stakes, approvals[n].account_id)
        } else {
            0
        },
{
    reveal(Seq::filter);
    let more = approvals.take(n + 1);
    assert(more.drop_last() =~= approvals.take(n));
    let endorsements = approvals.take(n).filter(is_endorsement());
    if approvals[n].is_endorsement {
        assert(more.filter(is_endorsement()) == endorsements.push(approvals[n]));
        assert(endorsements.push(approvals[n]).drop_last() =~= endorsements);
    }
}

} // verus!

use doomslug::{
    Approval, CryptoHash, Doomslug, DoomslugApprovalsTracker, DoomslugBlockProductionReadiness,
    DoomslugThresholdMode, DoomslugTimer, Duration, Instant, PromiseResult, ReturnData, Signer,
    StakeMap, ValidatorStake,
};
use near_crypto::{KeyType, SecretKey};

const H1: CryptoHash = CryptoHash([1; 32]);
const H2: CryptoHash = CryptoHash([2; 32]);

fn timer(min_delay: u64, delay_step: u64, max_delay: u64) -> DoomslugTimer {
    DoomslugTimer {
        started: Instant { nanos: 0 },
        height: 0,
        min_delay: Duration::from_millis(min_delay),
        delay_step: Duration::from_millis(delay_step),
        max_delay: Duration::from_millis(max_delay),
    }
}

fn approval(account: &str, is_endorsement: bool) -> Approval {
    let signer = Signer::from_seed(account);
    Approval::new(H1, None, 2, is_endorsement, &signer, account.to_string())
}

fn stake_map(stakes: &[(&str, u128)]) -> StakeMap {
    let mut map = StakeMap::new();
    for (account, amount) in stakes {
        map.insert(account.to_string(), *amount);
    }
    map
}

#[test]
fn delays_grow_up_to_their_cap() {
    let t = timer(1000, 100, 3000);
    assert_eq!(t.get_delay(0), Duration::from_millis(1000));
    assert_eq!(t.get_delay(1), Duration::from_millis(1000));
    assert_eq!(t.get_delay(2), Duration::from_millis(1100));
    assert_eq!(t.get_delay(20), Duration::from_millis(2900));
    assert_eq!(t.get_delay(21), Duration::from_millis(3000));
    assert_eq!(t.get_delay(22), Duration::from_millis(3000));
    assert_eq!(t.get_delay(u64::MAX), Duration::from_millis(3000));
    assert_eq!(timer(1000, 100, 700).get_delay(0), Duration::from_millis(700));
}

#[test]
fn the_distance_counts_up_to_what_32_bits_hold() {
    let t = timer(0, 1, u64::MAX);
    let most = Duration::from_millis(u32::MAX as u64 - 1);
    assert_eq!(t.get_delay(u32::MAX as u64 - 1), Duration::from_millis(u32::MAX as u64 - 2));
    assert_eq!(t.get_delay(u32::MAX as u64), most);
    assert_eq!(t.get_delay(u32::MAX as u64 + 1), most);
    assert_eq!(t.get_delay(u64::MAX), most);
}

#[test]
fn a_later_instant_is_the_sum() {
    let later = Instant { nanos: 5 } + Duration::from_millis(2);
    assert_eq!(later, Instant { nanos: 2_000_005 });
}

#[test]
fn the_signed_bytes_of_an_approval() {
    let height = 0x0102030405060708;
    let mut expected = vec![1u8; 32];
    expected.push(0);
    expected.extend([8, 7, 6, 5, 4, 3, 2, 1]);
    expected.push(1);
    assert_eq!(Approval::get_data_for_sig(&H1, &None, height, true), expected);

    let mut expected = vec![1u8; 32];
    expected.push(1);
    expected.extend([2u8; 32]);
    expected.extend([8, 7, 6, 5, 4, 3, 2, 1]);
    expected.push(0);
    assert_eq!(Approval::get_data_for_sig(&H1, &Some(H2), height, false), expected);
}

#[test]
fn the_signed_bytes_tell_approvals_apart() {
    let data = Approval::get_data_for_sig(&H1, &None, 2, true);
    assert_ne!(data, Approval::get_data_for_sig(&H2, &None, 2, true));
    assert_ne!(data, Approval::get_data_for_sig(&H1, &Some(H1), 2, true));
    assert_ne!(data, Approval::get_data_for_sig(&H1, &None, 3, true));
    assert_ne!(data, Approval::get_data_for_sig(&H1, &None, 2, false));
}

#[test]
fn an_approval_is_signed_with_the_key_of_its_signer() {
    let approval = approval("test", true);
    assert_eq!(approval.parent_hash, H1);
    assert_eq!(approval.reference_hash, None);
    assert_eq!(approval.target_height, 2);
    assert!(approval.is_endorsement);
    assert_eq!(approval.account_id, "test");

    let data = Approval::get_data_for_sig(&H1, &None, 2, true);
    let key = SecretKey::from_seed(KeyType::ED25519, "test");
    let signature =
        near_crypto::Signature::from_parts(KeyType::ED25519, &approval.signature).unwrap();
    assert!(signature == key.sign(&data));
    assert!(signature.verify(&data, &key.public_key()));
    let other = Approval::get_data_for_sig(&H1, &None, 2, false);
    assert!(!signature.verify(&other, &key.public_key()));
    assert_eq!(approval.clone(), approval);
}

#[test]
fn a_signer_takes_only_key_pairs_whose_halves_belong_together() {
    let good = SecretKey::from_seed(KeyType::ED25519, "test").unwrap_as_ed25519().0;
    let other = SecretKey::from_seed(KeyType::ED25519, "other").unwrap_as_ed25519().0;
    let signer = Signer::from_key_pair(good).unwrap();
    assert_eq!(signer.sign(&[1, 2, 3]), Signer::from_seed("test").sign(&[1, 2, 3]));
    assert_ne!(signer.sign(&[1, 2, 3]), Signer::from_key_pair(other).unwrap().sign(&[1, 2, 3]));
    let mut mixed = good;
    mixed[32..].copy_from_slice(&other[32..]);
    assert!(Signer::from_key_pair(mixed).is_none());
    assert!(Signer::from_key_pair([0; 64]).is_none());
}

#[test]
fn a_stake_map_holds_the_last_stake_of_each_account() {
    let mut map = stake_map(&[("a", 3), ("b", 4)]);
    assert_eq!(map.get(&"a".to_string()), Some(3));
    assert_eq!(map.get(&"c".to_string()), None);
    assert_eq!(map.stake_of(&"c".to_string()), 0);
    assert_eq!(map.total(), 7);
    map.insert("a".to_string(), 5);
    assert_eq!(map.stake_of(&"a".to_string()), 5);
    assert_eq!(map.total(), 9);
    assert_eq!(StakeMap::new().total(), 0);
}

#[test]
fn finality_takes_endorsements_of_more_than_half_of_the_stake() {
    let stakes = stake_map(&[("a", 2), ("b", 2), ("c", 1), ("d", 3)]);
    let a = approval("a", true);
    let b = approval("b", true);
    let c = approval("c", true);
    let mut approvals = vec![a, b];
    assert!(!Doomslug::is_approved_block_ds_final(&approvals, &stakes));
    approvals.push(approval("d", false));
    approvals.push(approval("stranger", true));
    assert!(!Doomslug::is_approved_block_ds_final(&approvals, &stakes));
    approvals.push(c);
    assert!(Doomslug::is_approved_block_ds_final(&approvals, &stakes));
    // Nobody takes care of duplicates here.
    let twice = vec![approval("d", true), approval("d", true)];
    assert!(Doomslug::is_approved_block_ds_final(&twice, &stakes));
    assert!(!Doomslug::is_approved_block_ds_final(&vec![], &stakes));
}

#[test]
fn production_takes_approvals_of_more_than_half_of_the_stake_or_just_one() {
    let stakes = stake_map(&[("a", 2), ("b", 2), ("c", 1), ("d", 3)]);
    let half = DoomslugThresholdMode::HalfStake;
    let single = DoomslugThresholdMode::SingleApproval;
    let mut approvals = vec![];
    assert!(!Doomslug::can_approved_block_be_produced(half, &approvals, &stakes));
    assert!(!Doomslug::can_approved_block_be_produced(single, &approvals, &stakes));
    approvals.push(approval("a", false));
    approvals.push(approval("b", true));
    assert!(!Doomslug::can_approved_block_be_produced(half, &approvals, &stakes));
    assert!(Doomslug::can_approved_block_be_produced(single, &approvals, &stakes));
    approvals.push(approval("c", false));
    assert!(Doomslug::can_approved_block_be_produced(half, &approvals, &stakes));
}

#[test]
fn a_tracker_weighs_each_account_once_in_any_order() {
    let stakes: Vec<ValidatorStake> = [("a", 2), ("b", 2), ("c", 1), ("d", 3)]
        .iter()
        .map(|(account, amount)| ValidatorStake {
            account_id: account.to_string(),
            public_key: vec![],
            amount: *amount,
        })
        .collect();
    let now = Instant { nanos: 17 };
    let later = Instant { nanos: 18 };
    let mode = DoomslugThresholdMode::HalfStake;

    let mut forth = DoomslugApprovalsTracker::new(&stakes, mode);
    let mut back = DoomslugApprovalsTracker::new(&stakes, mode);
    assert_eq!(
        forth.get_block_production_readiness(now),
        DoomslugBlockProductionReadiness::NotReady
    );
    assert_eq!(
        forth.process_approval(now, &approval("a", true)),
        DoomslugBlockProductionReadiness::NotReady
    );
    assert_eq!(
        forth.process_approval(now, &approval("d", true)),
        DoomslugBlockProductionReadiness::PassedThreshold(now)
    );
    assert_eq!(
        forth.process_approval(later, &approval("d", true)),
        DoomslugBlockProductionReadiness::PassedThreshold(now)
    );
    assert_eq!(
        forth.process_approval(later, &approval("c", false)),
        DoomslugBlockProductionReadiness::ReadyToProduce
    );
    assert_eq!(
        forth.process_approval(later, &approval("b", false)),
        DoomslugBlockProductionReadiness::ReadyToProduce
    );

    back.process_approval(now, &approval("b", false));
    back.process_approval(now, &approval("c", false));
    back.process_approval(now, &approval("d", true));
    assert_eq!(
        back.process_approval(now, &approval("a", true)),
        DoomslugBlockProductionReadiness::ReadyToProduce
    );

    assert_eq!(forth.stakes().total(), 8);
    assert_eq!(forth.approvals().len(), 4);
    assert!(Doomslug::is_approved_block_ds_final(forth.approvals(), forth.stakes()));
    assert!(Doomslug::can_approved_block_be_produced(mode, back.approvals(), back.stakes()));
    assert_eq!(forth.into_approvals().len(), back.into_approvals().len());
}

#[test]
fn without_any_approval_a_tracker_is_not_ready_in_any_mode() {
    let stakes: Vec<ValidatorStake> = [("test1", 2), ("test3", 3)]
        .iter()
        .map(|(account, amount)| ValidatorStake {
            account_id: account.to_string(),
            public_key: vec![],
            amount: *amount,
        })
        .collect();
    let now = Instant { nanos: 17 };
    let later = Instant { nanos: 18 };
    for mode in [DoomslugThresholdMode::SingleApproval, DoomslugThresholdMode::HalfStake] {
        let mut tracker = DoomslugApprovalsTracker::new(&stakes, mode);
        assert_eq!(
            tracker.get_block_production_readiness(now),
            DoomslugBlockProductionReadiness::NotReady
        );
    }
    let mut tracker =
        DoomslugApprovalsTracker::new(&stakes, DoomslugThresholdMode::SingleApproval);
    tracker.get_block_production_readiness(now);
    // The time counts from the first approval on.
    assert_eq!(
        tracker.process_approval(later, &approval("test1", false)),
        DoomslugBlockProductionReadiness::PassedThreshold(later)
    );
}

#[test]
fn results_of_contract_calls_compare_by_content() {
    assert_eq!(ReturnData::Value(vec![1]), ReturnData::Value(vec![1]));
    assert_ne!(ReturnData::ReceiptIndex(1), ReturnData::Nothing);
    assert_eq!(PromiseResult::Successful(vec![]), PromiseResult::Successful(vec![]));
    assert_ne!(PromiseResult::NotReady, PromiseResult::Failed);
}

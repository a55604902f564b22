use doomslug::{
    Approval, CryptoHash, Doomslug, DoomslugBlockProductionReadiness, DoomslugThresholdMode,
    Duration, Instant, Signer, StakeMap, ValidatorStake,
};
use near_crypto::{KeyType, SecretKey};
use std::sync::Arc;

/// The digest of some bytes, as blocks are identified by it.
fn hash(data: &[u8]) -> CryptoHash {
    CryptoHash(near_primitives::hash::hash(data).0)
}

/// Some point in time. For the test purposes the absolute value of the initial instant doesn't
/// matter.
fn some_instant() -> Instant {
    Instant { nanos: 1_700_000_000_000_000_017 }
}

fn validators(stakes: &[(&str, u128)]) -> Vec<ValidatorStake> {
    stakes
        .iter()
        .map(|(account_id, amount)| ValidatorStake {
            account_id: account_id.to_string(),
            amount: *amount,
            public_key: SecretKey::from_seed(KeyType::ED25519, account_id)
                .public_key()
                .key_data()
                .to_vec(),
        })
        .collect()
}

fn participant(signer: Option<Arc<Signer>>, mode: DoomslugThresholdMode) -> Doomslug {
    Doomslug::new(
        signer.as_ref().map(|_| "test".to_string()),
        0,
        0,
        Duration::from_millis(1000),
        Duration::from_millis(100),
        Duration::from_millis(3000),
        signer,
        mode,
        some_instant(),
    )
}

#[test]
fn test_endorsements_and_skips_basic() {
    let mut now = some_instant();

    let mut ds = Doomslug::new(
        Some("test".to_string()),
        0,
        0,
        Duration::from_millis(1000),
        Duration::from_millis(100),
        Duration::from_millis(3000),
        Some(Arc::new(Signer::from_seed("test"))),
        DoomslugThresholdMode::HalfStake,
        now,
    );

    // Set a new tip, must produce an endorsement
    let approval = ds.set_tip(now, hash(&[1]), None, 1, 1).unwrap();
    assert_eq!(approval.parent_hash, hash(&[1]));
    assert_eq!(approval.target_height, 2);
    assert!(approval.is_endorsement);

    // Same tip => no endorsement, but still expect an approval (it is for the cases when a block
    // at lower height is received after a block at a higher height, e.g. due to finality gadget)
    let approval = ds.set_tip(now, hash(&[1]), None, 1, 1).unwrap();
    assert_eq!(approval.parent_hash, hash(&[1]));
    assert_eq!(approval.target_height, 2);
    assert!(!approval.is_endorsement);

    // The block was `ds_final` and therefore started the timer. Try checking before one second expires
    assert_eq!(ds.process_timer(now + Duration::from_millis(999)), vec![]);

    // But one second should trigger the skip
    match ds.process_timer(now + Duration::from_millis(1000)) {
        approvals if approvals.len() == 0 => assert!(false),
        approvals => {
            assert_eq!(approvals[0].parent_hash, hash(&[1]));
            assert_eq!(approvals[0].target_height, 3);
            assert!(!approvals[0].is_endorsement);
        }
    }

    // Shift now 1 second forward
    now = now + Duration::from_millis(1000);

    // Not processing a block at height 2 should not produce an endorsement (but still an approval)
    let approval = ds.set_tip(now, hash(&[2]), None, 2, 1).unwrap();
    assert_eq!(approval.parent_hash, hash(&[2]));
    assert_eq!(approval.target_height, 3);
    assert!(!approval.is_endorsement);

    // Shift now 1 second forward
    now = now + Duration::from_millis(1000);

    // But at height 3 should (also neither block has ds_finality set, keep last ds_final at 1 for now)
    let approval = ds.set_tip(now, hash(&[3]), None, 3, 1).unwrap();
    assert_eq!(approval.parent_hash, hash(&[3]));
    assert_eq!(approval.target_height, 4);
    assert!(approval.is_endorsement);

    // Move 1 second further
    now = now + Duration::from_millis(1000);

    assert_eq!(ds.process_timer(now + Duration::from_millis(199)), vec![]);

    match ds.process_timer(now + Duration::from_millis(200)) {
        approvals if approvals.len() == 0 => assert!(false),
        approvals if approvals.len() == 1 => {
            assert_eq!(approvals[0].parent_hash, hash(&[3]));
            assert_eq!(approvals[0].target_height, 5);
            assert!(!approvals[0].is_endorsement);
        }
        _ => assert!(false),
    }

    // Move 1 second further
    now = now + Duration::from_millis(1000);

    // Now skip 5 (the extra delay is 200+300 = 500)
    assert_eq!(ds.process_timer(now + Duration::from_millis(499)), vec![]);

    match ds.process_timer(now + Duration::from_millis(500)) {
        approvals if approvals.len() == 0 => assert!(false),
        approvals => {
            assert_eq!(approvals[0].parent_hash, hash(&[3]));
            assert_eq!(approvals[0].target_height, 6);
            assert!(!approvals[0].is_endorsement);
        }
    }

    // Move 1 second further
    now = now + Duration::from_millis(1000);

    // Skip 6 (the extra delay is 0+200+300+400 = 900)
    assert_eq!(ds.process_timer(now + Duration::from_millis(899)), vec![]);

    match ds.process_timer(now + Duration::from_millis(900)) {
        approvals if approvals.len() == 0 => assert!(false),
        approvals => {
            assert_eq!(approvals[0].parent_hash, hash(&[3]));
            assert_eq!(approvals[0].target_height, 7);
            assert!(!approvals[0].is_endorsement);
        }
    }

    // Move 1 second further
    now = now + Duration::from_millis(1000);

    // Accept block at 5 with ds finality, expect it to produce an approval, but not an endorsement
    let approval = ds.set_tip(now, hash(&[5]), None, 5, 5).unwrap();
    assert_eq!(approval.parent_hash, hash(&[5]));
    assert_eq!(approval.target_height, 6);
    assert!(!approval.is_endorsement);

    // Skip a whole bunch of heights by moving 100 seconds ahead
    now = now + Duration::from_millis(100_000);
    assert!(ds.process_timer(now).len() > 10);

    // Add some random small number of milliseconds to test that when the next block is added, the
    // timer is reset
    now = now + Duration::from_millis(17);

    // That approval should not be an endorsement, since we skipped 6
    let approval = ds.set_tip(now, hash(&[6]), None, 6, 5).unwrap();
    assert_eq!(approval.parent_hash, hash(&[6]));
    assert_eq!(approval.target_height, 7);
    assert!(!approval.is_endorsement);

    // The block height was less than the timer height, and thus the timer was reset.
    // The wait time for height 7 with last ds final block at 5 is 1100
    assert_eq!(ds.process_timer(now + Duration::from_millis(1099)), vec![]);

    match ds.process_timer(now + Duration::from_millis(1100)) {
        approvals if approvals.len() == 0 => assert!(false),
        approvals => {
            assert_eq!(approvals[0].parent_hash, hash(&[6]));
            assert_eq!(approvals[0].target_height, 8);
            assert!(!approvals[0].is_endorsement);
        }
    }
}

#[test]
fn test_doomslug_approvals() {
    let stakes = validators(&[("test1", 2), ("test2", 1), ("test3", 3), ("test4", 2)]);

    let signer = Arc::new(Signer::from_seed("test"));
    let mut now = some_instant();
    let mut ds = Doomslug::new(
        Some("test".to_string()),
        0,
        0,
        Duration::from_millis(1000),
        Duration::from_millis(100),
        Duration::from_millis(3000),
        Some(signer.clone()),
        DoomslugThresholdMode::HalfStake,
        now,
    );

    // In the comments below the format is
    // account, height -> approved stake
    // The total stake is 8, so the thresholds are 5 and 7

    // "test1", 2 -> 2
    assert_eq!(
        ds.on_approval_message_internal(
            now,
            &Approval::new(hash(&[1]), None, 2, true, &*signer, "test1".to_string()),
            &stakes,
        ),
        DoomslugBlockProductionReadiness::NotReady,
    );

    // "test3", 4 -> 3
    assert_eq!(
        ds.on_approval_message_internal(
            now,
            &Approval::new(hash(&[1]), None, 4, true, &*signer, "test3".to_string()),
            &stakes,
        ),
        DoomslugBlockProductionReadiness::NotReady,
    );

    // "test1", 4 -> 5
    assert_eq!(
        ds.on_approval_message_internal(
            now,
            &Approval::new(hash(&[1]), None, 4, true, &*signer, "test1".to_string()),
            &stakes,
        ),
        DoomslugBlockProductionReadiness::PassedThreshold(now),
    );

    // "test1", 4 -> same account, still 5
    assert_eq!(
        ds.on_approval_message_internal(
            now + Duration::from_millis(100),
            &Approval::new(hash(&[1]), None, 4, true, &*signer, "test1".to_string()),
            &stakes,
        ),
        DoomslugBlockProductionReadiness::PassedThreshold(now),
    );

    // "test4", 4 -> 7
    assert_eq!(
        ds.on_approval_message_internal(
            now,
            &Approval::new(hash(&[1]), None, 4, true, &*signer, "test4".to_string()),
            &stakes,
        ),
        DoomslugBlockProductionReadiness::ReadyToProduce,
    );

    // "test4", 2 -> 4
    assert_eq!(
        ds.on_approval_message_internal(
            now,
            &Approval::new(hash(&[1]), None, 2, true, &*signer, "test4".to_string()),
            &stakes,
        ),
        DoomslugBlockProductionReadiness::NotReady,
    );

    now = now + Duration::from_millis(200);

    // "test2", 2 -> 5
    assert_eq!(
        ds.on_approval_message_internal(
            now,
            &Approval::new(hash(&[1]), None, 2, true, &*signer, "test2".to_string()),
            &stakes,
        ),
        DoomslugBlockProductionReadiness::PassedThreshold(now),
    );

    // A different parent hash
    assert_eq!(
        ds.on_approval_message_internal(
            now,
            &Approval::new(hash(&[2]), None, 4, true, &*signer, "test2".to_string()),
            &stakes,
        ),
        DoomslugBlockProductionReadiness::NotReady,
    );
}

#[test]
fn a_new_participant_starts_from_the_heights_of_an_earlier_life() {
    let now = some_instant();
    let mut ds = Doomslug::new(
        Some("test".to_string()),
        7,
        5,
        Duration::from_millis(1000),
        Duration::from_millis(100),
        Duration::from_millis(3000),
        Some(Arc::new(Signer::from_seed("test"))),
        DoomslugThresholdMode::HalfStake,
        now,
    );
    assert_eq!(ds.get_tip(), (CryptoHash([0; 32]), 0));
    assert_eq!(ds.get_tip().0, CryptoHash::default());
    assert_eq!(ds.get_largest_skipped_height(), 7);
    assert_eq!(ds.get_largest_endorsed_height(), 5);
    assert_eq!(ds.get_largest_height_with_doomslug_finality(), 0);
    assert_eq!(ds.get_largest_height_crossing_threshold(), 0);
    assert_eq!(ds.get_timer_height(), 0);
    assert_eq!(ds.get_timer_start(), now);

    assert!(!ds.set_tip(now, hash(&[6]), None, 6, 4).unwrap().is_endorsement);
    assert!(!ds.set_tip(now, hash(&[7]), None, 7, 4).unwrap().is_endorsement);
    assert_eq!(ds.get_largest_endorsed_height(), 5);
    assert!(ds.set_tip(now, hash(&[8]), None, 8, 4).unwrap().is_endorsement);
    assert_eq!(ds.get_largest_endorsed_height(), 8);
    assert_eq!(ds.get_tip(), (hash(&[8]), 8));
    assert_eq!(ds.get_timer_height(), 9);
    assert_eq!(ds.get_largest_height_with_doomslug_finality(), 4);
}

#[test]
fn without_a_name_nothing_is_sent_but_promises_are_kept() {
    let now = some_instant();
    let mut ds = participant(None, DoomslugThresholdMode::HalfStake);
    assert_eq!(ds.set_tip(now, hash(&[1]), None, 1, 1), None);
    assert_eq!(ds.get_largest_endorsed_height(), 1);
    assert_eq!(ds.create_approval(2, true), None);
    assert_eq!(ds.process_timer(now + Duration::from_millis(1000)), vec![]);
    assert_eq!(ds.get_largest_skipped_height(), 2);
    assert_eq!(ds.get_timer_height(), 3);
}

#[test]
fn approvals_carry_the_reference_hash_and_the_name() {
    let now = some_instant();
    let signer = Arc::new(Signer::from_seed("test"));
    let mut ds = participant(Some(signer.clone()), DoomslugThresholdMode::HalfStake);
    let approval = ds.set_tip(now, hash(&[1]), Some(hash(&[9])), 1, 1).unwrap();
    assert_eq!(
        approval,
        Approval::new(hash(&[1]), Some(hash(&[9])), 2, true, &*signer, "test".to_string())
    );
    let skips = ds.process_timer(now + Duration::from_millis(1000));
    assert_eq!(
        skips,
        vec![Approval::new(hash(&[1]), Some(hash(&[9])), 3, false, &*signer, "test".to_string())]
    );
    assert_eq!(
        ds.create_approval(12, true),
        Some(Approval::new(hash(&[1]), Some(hash(&[9])), 12, true, &*signer, "test".to_string()))
    );
}

#[test]
fn the_timer_stops_after_a_bounded_number_of_steps() {
    let now = some_instant();
    let signer = Arc::new(Signer::from_seed("test"));
    let mut ds = participant(Some(signer), DoomslugThresholdMode::HalfStake);
    let _ = ds.set_tip(now, hash(&[1]), None, 1, 1);
    let much_later = now + Duration::from_millis(1_000_000_000);
    let approvals = ds.process_timer(much_later);
    assert_eq!(approvals.len(), 20);
    let targets: Vec<u64> = approvals.iter().map(|approval| approval.target_height).collect();
    assert_eq!(targets, (3..23).collect::<Vec<u64>>());
    assert_eq!(ds.get_timer_height(), 22);
    assert_eq!(ds.get_largest_skipped_height(), 21);
    assert_eq!(ds.process_timer(much_later).len(), 20);
    assert_eq!(ds.get_timer_height(), 42);
}

#[test]
fn looking_at_the_timer_more_often_changes_nothing() {
    let now = some_instant();
    let signer = Arc::new(Signer::from_seed("test"));
    let mut often = participant(Some(signer.clone()), DoomslugThresholdMode::HalfStake);
    let mut once = participant(Some(signer), DoomslugThresholdMode::HalfStake);
    let _ = often.set_tip(now, hash(&[1]), None, 1, 1);
    let _ = once.set_tip(now, hash(&[1]), None, 1, 1);
    let mut approvals = often.process_timer(now + Duration::from_millis(1500));
    approvals.append(&mut often.process_timer(now + Duration::from_millis(5000)));
    assert_eq!(approvals, once.process_timer(now + Duration::from_millis(5000)));
    assert_eq!(approvals.len(), 4);
    assert_eq!(often.get_timer_height(), once.get_timer_height());
    assert_eq!(often.get_timer_start(), once.get_timer_start());
    assert_eq!(often.get_timer_start(), now + Duration::from_millis(1000 + 1100 + 1200 + 1300));
}

#[test]
fn heights_that_were_endorsed_are_not_skipped() {
    let now = some_instant();
    let signer = Arc::new(Signer::from_seed("test"));
    let mut ds = participant(Some(signer), DoomslugThresholdMode::HalfStake);
    assert!(ds.set_tip(now, hash(&[5]), None, 5, 1).unwrap().is_endorsement);
    // The tip moves back: 4 and 5 are not skipped, since 5 has been endorsed.
    assert!(!ds.set_tip(now, hash(&[3]), None, 3, 1).unwrap().is_endorsement);
    let approvals = ds.process_timer(now + Duration::from_millis(1200 + 1300 + 1400));
    assert_eq!(approvals.len(), 1);
    assert_eq!(approvals[0].target_height, 7);
    assert_eq!(ds.get_largest_skipped_height(), 6);
    // Having skipped 6, the participant does not endorse it, but does endorse 7.
    assert!(!ds.set_tip(now, hash(&[6]), None, 6, 1).unwrap().is_endorsement);
    assert!(ds.set_tip(now, hash(&[7]), None, 7, 1).unwrap().is_endorsement);
}

#[test]
fn a_block_past_the_threshold_waits_for_half_of_the_delay() {
    let stakes = validators(&[("test1", 2), ("test2", 1), ("test3", 3), ("test4", 2)]);
    let now = some_instant();
    let signer = Arc::new(Signer::from_seed("test"));
    let mut ds = participant(Some(signer.clone()), DoomslugThresholdMode::HalfStake);
    let _ = ds.set_tip(now, hash(&[1]), None, 1, 1);
    assert!(!ds.ready_to_produce_block(now, 2));
    for account in ["test1", "test3"] {
        let approval = Approval::new(hash(&[1]), None, 2, true, &*signer, account.to_string());
        ds.on_approval_message(now, &approval, &stakes);
    }
    assert_eq!(ds.get_largest_height_crossing_threshold(), 2);
    assert!(!ds.ready_to_produce_block(now, 2));
    assert!(!ds.ready_to_produce_block(now + Duration::from_millis(500), 2));
    assert!(ds.ready_to_produce_block(
        now + Duration::from_millis(500) + Duration { nanos: 1 },
        2
    ));
    assert!(ds.ready_to_produce_block(now + Duration::from_millis(9000), 2));
    assert!(!ds.ready_to_produce_block(now + Duration::from_millis(9000), 3));
    // A further approval makes the block ready at once.
    let approval = Approval::new(hash(&[1]), None, 2, false, &*signer, "test4".to_string());
    ds.on_approval_message(now, &approval, &stakes);
    assert!(ds.ready_to_produce_block(now, 2));
    // Whoever receives the block finds enough approvals in it.
    let approvals = ds.remove_witness(hash(&[1]), 2);
    assert!(Doomslug::can_approved_block_be_produced(
        DoomslugThresholdMode::HalfStake,
        &approvals,
        &StakeMap::from_validators(&stakes),
    ));
    for approval in &approvals {
        ds.on_approval_message(now, approval, &stakes);
    }
    assert!(ds.ready_to_produce_block(now, 2));
    // With another tip the approvals are for the wrong block.
    let _ = ds.set_tip(now, hash(&[2]), None, 1, 1);
    assert!(!ds.ready_to_produce_block(now + Duration::from_millis(9000), 2));
}

#[test]
fn approvals_that_endorse_too_little_do_not_make_a_block_ready() {
    let stakes = validators(&[("test1", 2), ("test2", 1), ("test3", 3), ("test4", 2)]);
    let now = some_instant();
    let signer = Signer::from_seed("test");
    let mut ds = participant(None, DoomslugThresholdMode::HalfStake);
    let mut send = |account: &str, is_endorsement: bool| {
        let approval =
            Approval::new(hash(&[1]), None, 2, is_endorsement, &signer, account.to_string());
        ds.on_approval_message_internal(now, &approval, &stakes)
    };
    assert_eq!(send("test1", true), DoomslugBlockProductionReadiness::NotReady);
    assert_eq!(send("stranger", true), DoomslugBlockProductionReadiness::NotReady);
    assert_eq!(send("test3", false), DoomslugBlockProductionReadiness::PassedThreshold(now));
    assert_eq!(send("test4", true), DoomslugBlockProductionReadiness::PassedThreshold(now));
    // The second approval of an account does not count, also if it says something else.
    assert_eq!(send("test3", true), DoomslugBlockProductionReadiness::PassedThreshold(now));
    assert!(!ds.is_prev_block_ds_final(hash(&[1]), 2));
    let approval = Approval::new(hash(&[1]), None, 2, true, &signer, "test2".to_string());
    assert_eq!(
        ds.on_approval_message_internal(now, &approval, &stakes),
        DoomslugBlockProductionReadiness::ReadyToProduce
    );
    assert!(ds.is_prev_block_ds_final(hash(&[1]), 2));
    assert!(!ds.is_prev_block_ds_final(hash(&[1]), 3));
    assert!(!ds.is_prev_block_ds_final(hash(&[2]), 2));
}

#[test]
fn a_single_approval_passes_the_threshold_of_its_mode() {
    let stakes = validators(&[("test1", 2), ("test2", 100)]);
    let now = some_instant();
    let signer = Signer::from_seed("test");
    let mut ds = participant(None, DoomslugThresholdMode::SingleApproval);
    let approval = Approval::new(hash(&[1]), None, 2, true, &signer, "stranger".to_string());
    assert_eq!(
        ds.on_approval_message_internal(now, &approval, &stakes),
        DoomslugBlockProductionReadiness::PassedThreshold(now)
    );
    assert_eq!(ds.get_largest_height_crossing_threshold(), 2);
}

#[test]
fn the_stakes_of_the_first_approval_count() {
    let now = some_instant();
    let signer = Signer::from_seed("test");
    let mut ds = participant(None, DoomslugThresholdMode::HalfStake);
    let first = Approval::new(hash(&[1]), None, 2, true, &signer, "test1".to_string());
    let second = Approval::new(hash(&[1]), None, 2, true, &signer, "test2".to_string());
    assert_eq!(
        ds.on_approval_message_internal(now, &first, &validators(&[("test1", 1), ("test2", 9)])),
        DoomslugBlockProductionReadiness::NotReady
    );
    assert_eq!(
        ds.on_approval_message_internal(now, &second, &validators(&[("test3", 1)])),
        DoomslugBlockProductionReadiness::ReadyToProduce
    );
}

#[test]
fn removed_approvals_are_handed_out_once() {
    let stakes = validators(&[("test1", 2), ("test2", 1), ("test3", 3), ("test4", 2)]);
    let now = some_instant();
    let signer = Signer::from_seed("test");
    let mut ds = participant(None, DoomslugThresholdMode::HalfStake);
    let approval = |parent: u8, account: &str, is_endorsement: bool| {
        Approval::new(hash(&[parent]), None, 2, is_endorsement, &signer, account.to_string())
    };
    ds.on_approval_message(now, &approval(1, "test1", true), &stakes);
    ds.on_approval_message(now, &approval(2, "test1", true), &stakes);
    ds.on_approval_message(now, &approval(1, "test3", true), &stakes);
    ds.on_approval_message(now, &approval(1, "test3", false), &stakes);
    assert!(ds.is_prev_block_ds_final(hash(&[1]), 2));
    assert!(ds.has_approvals(hash(&[1]), 2));
    assert!(!ds.has_approvals(hash(&[1]), 3));

    let by_account = StakeMap::from_validators(&stakes);
    let mut removed = ds.remove_witness(hash(&[1]), 2);
    // What was final stays so in the eyes of those who receive the approvals.
    assert!(Doomslug::is_approved_block_ds_final(&removed, &by_account));
    removed.sort_by(|a, b| a.account_id.cmp(&b.account_id));
    assert_eq!(removed, vec![approval(1, "test1", true), approval(1, "test3", true)]);
    assert!(!ds.is_prev_block_ds_final(hash(&[1]), 2));
    assert!(!ds.has_approvals(hash(&[1]), 2));
    assert_eq!(ds.remove_witness(hash(&[1]), 2), vec![]);
    assert_eq!(ds.remove_witness(hash(&[2]), 3), vec![]);
    assert_eq!(ds.remove_witness(hash(&[2]), 2), vec![approval(2, "test1", true)]);
}

#[test]
fn approvals_for_different_blocks_do_not_interfere() {
    let stakes = validators(&[("test1", 2), ("test2", 1)]);
    let now = some_instant();
    let signer = Signer::from_seed("test");
    let a = Approval::new(hash(&[1]), None, 2, true, &signer, "test1".to_string());
    let b = Approval::new(hash(&[1]), None, 3, true, &signer, "test1".to_string());
    let mut first = participant(None, DoomslugThresholdMode::HalfStake);
    let mut second = participant(None, DoomslugThresholdMode::HalfStake);
    first.on_approval_message(now, &a, &stakes);
    first.on_approval_message(now, &b, &stakes);
    second.on_approval_message(now, &b, &stakes);
    second.on_approval_message(now, &a, &stakes);
    assert_eq!(first.get_largest_height_crossing_threshold(), 3);
    assert_eq!(second.get_largest_height_crossing_threshold(), 3);
    assert_eq!(first.remove_witness(hash(&[1]), 2), second.remove_witness(hash(&[1]), 2));
    assert_eq!(first.remove_witness(hash(&[1]), 3), second.remove_witness(hash(&[1]), 3));
}

#[test]
fn the_timer_works_up_to_the_largest_heights() {
    let now = some_instant();
    let signer = Arc::new(Signer::from_seed("test"));
    let mut ds = participant(Some(signer), DoomslugThresholdMode::HalfStake);
    let tip = u64::MAX - 21;
    assert!(ds.set_tip(now, hash(&[1]), None, tip, tip).unwrap().is_endorsement);
    let approvals = ds.process_timer(now + Duration::from_millis(1_000_000));
    assert_eq!(approvals.len(), 20);
    assert_eq!(approvals[19].target_height, u64::MAX);
    assert_eq!(ds.get_timer_height(), u64::MAX);
    assert_eq!(ds.get_largest_skipped_height(), u64::MAX - 1);
}

#[test]
fn the_largest_final_height_is_kept() {
    let now = some_instant();
    let signer = Arc::new(Signer::from_seed("test"));
    let mut ds = participant(Some(signer), DoomslugThresholdMode::HalfStake);
    let _ = ds.set_tip(now, hash(&[5]), None, 5, 5);
    assert_eq!(ds.get_largest_height_with_doomslug_finality(), 5);
    let _ = ds.set_tip(now, hash(&[6]), None, 6, 3);
    assert_eq!(ds.get_largest_height_with_doomslug_finality(), 5);
    // The timer is at 7, two heights from the last final one.
    assert_eq!(ds.process_timer(now + Duration::from_millis(1099)), vec![]);
    assert_eq!(ds.process_timer(now + Duration::from_millis(1100)).len(), 1);
    let _ = ds.set_tip(now, hash(&[7]), None, 7, 7);
    assert_eq!(ds.get_largest_height_with_doomslug_finality(), 7);
}

#[test]
fn the_timer_skips_exactly_the_heights_passed() {
    let now = some_instant();
    let signer = Arc::new(Signer::from_seed("test"));
    let mut ds = participant(Some(signer.clone()), DoomslugThresholdMode::HalfStake);
    let _ = ds.set_tip(now, hash(&[4]), None, 4, 1);
    let _ = ds.set_tip(now, hash(&[2]), None, 2, 1);
    // Heights 3 to 6 take 1100, 1200, 1300 and 1400; 3 and 4 are not skipped, since 4 has been
    // endorsed.
    let approvals = ds.process_timer(now + Duration::from_millis(5000 + 1499));
    assert_eq!(
        approvals,
        vec![
            Approval::new(hash(&[2]), None, 6, false, &*signer, "test".to_string()),
            Approval::new(hash(&[2]), None, 7, false, &*signer, "test".to_string()),
        ]
    );
    assert_eq!(ds.get_timer_height(), 7);
    assert_eq!(ds.get_timer_start(), now + Duration::from_millis(5000));
    assert_eq!(ds.get_largest_skipped_height(), 6);
}

#[test]
fn heights_never_shrink() {
    let now = some_instant();
    let signer = Arc::new(Signer::from_seed("test"));
    let stakes = validators(&[("test1", 1)]);
    let mut ds = participant(Some(signer.clone()), DoomslugThresholdMode::HalfStake);
    let _ = ds.set_tip(now, hash(&[9]), None, 9, 1);
    let _ = ds.process_timer(now + Duration::from_millis(1800));
    let approval = Approval::new(hash(&[9]), None, 10, true, &*signer, "test1".to_string());
    ds.on_approval_message(now, &approval, &stakes);
    let heights = |ds: &Doomslug| {
        (
            ds.get_largest_endorsed_height(),
            ds.get_largest_skipped_height(),
            ds.get_largest_height_crossing_threshold(),
            ds.get_largest_height_with_doomslug_finality(),
        )
    };
    assert_eq!(heights(&ds), (9, 10, 10, 1));
    let _ = ds.set_tip(now, hash(&[4]), None, 4, 0);
    let _ = ds.process_timer(now + Duration::from_millis(1400 + 1500));
    let approval = Approval::new(hash(&[4]), None, 5, true, &*signer, "test1".to_string());
    ds.on_approval_message(now, &approval, &stakes);
    let _ = ds.remove_witness(hash(&[9]), 10);
    assert_eq!(heights(&ds), (9, 10, 10, 1));
}

#[test]
fn final_blocks_share_an_endorser() {
    let stakes = validators(&[("test1", 2), ("test2", 1), ("test3", 2)]);
    let now = some_instant();
    let signer = Signer::from_seed("test");
    let mut ds = participant(None, DoomslugThresholdMode::HalfStake);
    for (parent, account) in [(1, "test1"), (1, "test2"), (2, "test3")] {
        let approval =
            Approval::new(hash(&[parent]), None, 2, true, &signer, account.to_string());
        ds.on_approval_message(now, &approval, &stakes);
    }
    assert!(ds.is_prev_block_ds_final(hash(&[1]), 2));
    assert!(!ds.is_prev_block_ds_final(hash(&[2]), 2));
    // Only with somebody who endorses both is the other one final too.
    let approval = Approval::new(hash(&[2]), None, 2, true, &signer, "test2".to_string());
    ds.on_approval_message(now, &approval, &stakes);
    assert!(ds.is_prev_block_ds_final(hash(&[2]), 2));
}

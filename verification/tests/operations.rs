use crowd_funding::Crowdfunding;
use crowd_funding::ErrorCode;
use crowd_funding::Pubkey;
use crowd_funding::Campaign;
use crowd_funding::CampaignState;
use crowd_funding::ops::Contribute;
use crowd_funding::ops::CreateCampaign;
use crowd_funding::ops::InitializeState;
use crowd_funding::ops::Withdraw;
use crowd_funding::ops::contribute;
use crowd_funding::ops::create_campaign;
use crowd_funding::ops::initialize_state;
use crowd_funding::ops::withdraw;

fn key(v: u64) -> Pubkey {
    Pubkey::new(v)
}

fn deployed() -> Crowdfunding {
    let mut cf = Crowdfunding::new();
    initialize_state(&mut cf, InitializeState { user: key(999) }).unwrap();
    cf
}

fn create(
    cf: &mut Crowdfunding,
    campaign: Pubkey,
    user: Pubkey,
    deadline: i64,
    now: i64,
) -> Result<(), ErrorCode> {
    create_campaign(
        cf,
        CreateCampaign { campaign, user },
        String::from("Build a well"),
        String::from("Clean water for the village"),
        deadline,
        now,
    )
}

#[test]
fn initialize_creates_empty_registry() {
    let mut cf = Crowdfunding::new();
    assert_eq!(initialize_state(&mut cf, InitializeState { user: key(1) }), Ok(()));
    assert_eq!(cf.registry_len(), 0);
}

#[test]
fn initialize_twice_fails() {
    let mut cf = deployed();
    let r = initialize_state(&mut cf, InitializeState { user: key(1) });
    assert_eq!(r, Err(ErrorCode::AlreadyInitialized));
    assert_eq!(cf.registry_len(), 0);
}

#[test]
fn create_stores_fields_and_registers_once() {
    let mut cf = deployed();
    assert_eq!(create(&mut cf, key(10), key(1), 100, 5), Ok(()));
    let c = cf.get_campaign(key(10)).expect("record must exist");
    assert_eq!(c.id, key(10));
    assert_eq!(c.owner, key(1));
    assert_eq!(c.title, "Build a well");
    assert_eq!(c.description, "Clean water for the village");
    assert_eq!(c.deadline, 100);
    assert_eq!(c.total_contribution, 0);
    assert!(cf.registry_contains(key(10)));
    assert_eq!(cf.registry_len(), 1);
    let listed = &cf.state.as_ref().unwrap().campaigns;
    assert_eq!(listed.iter().filter(|k| **k == key(10)).count(), 1);
}

#[test]
fn create_with_deadline_now_fails() {
    let mut cf = deployed();
    let r = create(&mut cf, key(10), key(1), 50, 50);
    assert_eq!(r, Err(ErrorCode::DeadlineMustBeInFuture));
    assert_eq!(cf.registry_len(), 0);
    assert!(cf.get_campaign(key(10)).is_none());
}

#[test]
fn create_with_past_deadline_fails() {
    let mut cf = deployed();
    let r = create(&mut cf, key(10), key(1), 49, 50);
    assert_eq!(r, Err(ErrorCode::DeadlineMustBeInFuture));
    assert_eq!(cf.registry_len(), 0);
}

#[test]
fn create_same_address_twice_fails() {
    let mut cf = deployed();
    assert_eq!(create(&mut cf, key(10), key(1), 100, 5), Ok(()));
    let r = create(&mut cf, key(10), key(1), 200, 5);
    assert_eq!(r, Err(ErrorCode::DuplicateCampaign));
    assert_eq!(cf.registry_len(), 1);
}

#[test]
fn create_beyond_capacity_fails() {
    let mut cf = deployed();
    for n in 0..100u64 {
        assert_eq!(create(&mut cf, key(100 + n), key(1), 1000, 5), Ok(()));
    }
    assert_eq!(cf.registry_len(), 100);
    let r = create(&mut cf, key(777), key(1), 1000, 5);
    assert_eq!(r, Err(ErrorCode::RegistryFull));
    assert_eq!(cf.registry_len(), 100);
    assert!(!cf.registry_contains(key(777)));
    assert!(cf.get_campaign(key(777)).is_none());
}

#[test]
fn contribute_moves_lamports_and_counts_them() {
    let mut cf = deployed();
    assert_eq!(create(&mut cf, key(10), key(1), 100, 5), Ok(()));
    cf.airdrop(key(2), 1_000).unwrap();
    let r = contribute(&mut cf, Contribute { campaign: key(10), contributor: key(2) }, 250, 50);
    assert_eq!(r, Ok(()));
    assert_eq!(cf.lamports_of(key(2)), 750);
    assert_eq!(cf.lamports_of(key(10)), 250);
    assert_eq!(cf.get_campaign(key(10)).unwrap().total_contribution, 250);
}

#[test]
fn contribute_accumulates_exact_sums() {
    let mut cf = deployed();
    assert_eq!(create(&mut cf, key(10), key(1), 100, 5), Ok(()));
    cf.airdrop(key(2), 1_000).unwrap();
    cf.airdrop(key(3), 1_000).unwrap();
    contribute(&mut cf, Contribute { campaign: key(10), contributor: key(2) }, 7, 10).unwrap();
    contribute(&mut cf, Contribute { campaign: key(10), contributor: key(3) }, 11, 20).unwrap();
    contribute(&mut cf, Contribute { campaign: key(10), contributor: key(2) }, 13, 30).unwrap();
    assert_eq!(cf.get_campaign(key(10)).unwrap().total_contribution, 31);
    assert_eq!(cf.lamports_of(key(10)), 31);
    assert_eq!(cf.lamports_of(key(2)), 980);
    assert_eq!(cf.lamports_of(key(3)), 989);
}

#[test]
fn contribute_at_deadline_fails_expired() {
    let mut cf = deployed();
    assert_eq!(create(&mut cf, key(10), key(1), 100, 5), Ok(()));
    cf.airdrop(key(2), 1_000_000).unwrap();
    let r = contribute(&mut cf, Contribute { campaign: key(10), contributor: key(2) }, 1, 100);
    assert_eq!(r, Err(ErrorCode::CampaignExpired));
    let r = contribute(&mut cf, Contribute { campaign: key(10), contributor: key(2) }, 999, 4000);
    assert_eq!(r, Err(ErrorCode::CampaignExpired));
    assert_eq!(cf.get_campaign(key(10)).unwrap().total_contribution, 0);
    assert_eq!(cf.lamports_of(key(2)), 1_000_000);
}

#[test]
fn contribute_expired_wins_over_poverty() {
    // a broke contributor after the deadline still sees CampaignExpired
    let mut cf = deployed();
    assert_eq!(create(&mut cf, key(10), key(1), 100, 5), Ok(()));
    let r = contribute(&mut cf, Contribute { campaign: key(10), contributor: key(2) }, 5, 200);
    assert_eq!(r, Err(ErrorCode::CampaignExpired));
}

#[test]
fn contribute_without_funds_fails() {
    let mut cf = deployed();
    assert_eq!(create(&mut cf, key(10), key(1), 100, 5), Ok(()));
    cf.airdrop(key(2), 4).unwrap();
    let r = contribute(&mut cf, Contribute { campaign: key(10), contributor: key(2) }, 5, 50);
    assert_eq!(r, Err(ErrorCode::InsufficientFunds));
    assert_eq!(cf.lamports_of(key(2)), 4);
    assert_eq!(cf.get_campaign(key(10)).unwrap().total_contribution, 0);
}

#[test]
fn contribute_overflow_rejected_after_first_half() {
    // two huge contributions, serialized: exactly one succeeds
    let half_plus_one = u64::MAX / 2 + 1;
    let mut cf = deployed();
    assert_eq!(create(&mut cf, key(10), key(1), 100, 5), Ok(()));
    cf.airdrop(key(2), half_plus_one).unwrap();
    cf.airdrop(key(3), half_plus_one).unwrap();
    let first = contribute(
        &mut cf,
        Contribute { campaign: key(10), contributor: key(2) },
        half_plus_one,
        50,
    );
    assert_eq!(first, Ok(()));
    let second = contribute(
        &mut cf,
        Contribute { campaign: key(10), contributor: key(3) },
        half_plus_one,
        60,
    );
    assert_eq!(second, Err(ErrorCode::Overflow));
    assert_eq!(cf.get_campaign(key(10)).unwrap().total_contribution, half_plus_one);
    assert_eq!(cf.lamports_of(key(10)), half_plus_one);
    assert_eq!(cf.lamports_of(key(3)), half_plus_one);
}

#[test]
fn withdraw_before_deadline_fails() {
    let mut cf = deployed();
    assert_eq!(create(&mut cf, key(10), key(1), 100, 5), Ok(()));
    let r = withdraw(&mut cf, Withdraw { campaign: key(10), owner: key(1) }, 99);
    assert_eq!(r, Err(ErrorCode::DeadlineNotReached));
    assert!(cf.registry_contains(key(10)));
}

#[test]
fn withdraw_by_stranger_fails_even_after_deadline() {
    let mut cf = deployed();
    assert_eq!(create(&mut cf, key(10), key(1), 100, 5), Ok(()));
    let r = withdraw(&mut cf, Withdraw { campaign: key(10), owner: key(2) }, 500);
    assert_eq!(r, Err(ErrorCode::Unauthorized));
    let r = withdraw(&mut cf, Withdraw { campaign: key(10), owner: key(2) }, 50);
    assert_eq!(r, Err(ErrorCode::Unauthorized));
    assert!(cf.registry_contains(key(10)));
}

#[test]
fn withdraw_delists_destroys_and_pays_out() {
    let mut cf = deployed();
    assert_eq!(create(&mut cf, key(10), key(1), 100, 5), Ok(()));
    cf.airdrop(key(2), 1_000).unwrap();
    contribute(&mut cf, Contribute { campaign: key(10), contributor: key(2) }, 40, 50).unwrap();
    let r = withdraw(&mut cf, Withdraw { campaign: key(10), owner: key(1) }, 100);
    assert_eq!(r, Ok(()));
    assert!(!cf.registry_contains(key(10)));
    assert_eq!(cf.registry_len(), 0);
    assert!(cf.get_campaign(key(10)).is_none());
    assert_eq!(cf.lamports_of(key(1)), 40);
    assert_eq!(cf.lamports_of(key(10)), 0);
}

#[test]
fn round_trip_pays_exactly_the_sum() {
    let mut cf = deployed();
    assert_eq!(create(&mut cf, key(55), key(7), 1_000, 5), Ok(()));
    cf.airdrop(key(7), 123).unwrap();
    cf.airdrop(key(2), 10).unwrap();
    cf.airdrop(key(3), 10).unwrap();
    contribute(&mut cf, Contribute { campaign: key(55), contributor: key(2) }, 5, 10).unwrap();
    contribute(&mut cf, Contribute { campaign: key(55), contributor: key(3) }, 3, 20).unwrap();
    let r = withdraw(&mut cf, Withdraw { campaign: key(55), owner: key(7) }, 1_000);
    assert_eq!(r, Ok(()));
    // the owner's pre-existing balance plus exactly 5 + 3
    assert_eq!(cf.lamports_of(key(7)), 123 + 8);
    // the registry is back to its pre-create membership
    assert_eq!(cf.registry_len(), 0);
    assert!(!cf.registry_contains(key(55)));
}

#[test]
fn recreate_after_withdraw_is_a_clean_slate() {
    // the derived address is free again once the record is destroyed
    let mut cf = deployed();
    assert_eq!(create(&mut cf, key(10), key(1), 100, 5), Ok(()));
    withdraw(&mut cf, Withdraw { campaign: key(10), owner: key(1) }, 100).unwrap();
    assert_eq!(create(&mut cf, key(10), key(1), 300, 200), Ok(()));
    assert_eq!(cf.get_campaign(key(10)).unwrap().total_contribution, 0);
    assert_eq!(cf.get_campaign(key(10)).unwrap().deadline, 300);
    assert!(cf.registry_contains(key(10)));
}

#[test]
fn airdrop_overflow_fails() {
    let mut cf = Crowdfunding::new();
    cf.airdrop(key(2), u64::MAX).unwrap();
    let r = cf.airdrop(key(2), 1);
    assert_eq!(r, Err(ErrorCode::Overflow));
    assert_eq!(cf.lamports_of(key(2)), u64::MAX);
}

#[test]
fn error_messages_name_the_failure() {
    assert_eq!(ErrorCode::DeadlineMustBeInFuture.message(), "Deadline must be in the future");
    assert_eq!(ErrorCode::CampaignExpired.message(), "Campaign has already expired");
    assert_eq!(ErrorCode::DeadlineNotReached.message(), "Deadline has not been reached");
    assert_eq!(ErrorCode::Overflow.message(), "Overflow detected");
    assert_eq!(ErrorCode::InsufficientFunds.message(), "Insufficient funds to contribute");
}

#[test]
fn withdraw_detects_registry_record_mismatch() {
    // a record whose address the registry has lost: a prior-bug state that
    // the operations themselves never produce
    let mut cf = Crowdfunding {
        state: Some(CampaignState { campaigns: Vec::new() }),
        records: vec![Campaign {
            id: key(10),
            owner: key(1),
            title: String::from("t"),
            description: String::from("d"),
            deadline: 100,
            total_contribution: 0,
        }],
        balances: Vec::new(),
    };
    let r = withdraw(&mut cf, Withdraw { campaign: key(10), owner: key(1) }, 200);
    assert_eq!(r, Err(ErrorCode::InternalInconsistency));
}

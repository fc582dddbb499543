//! Deposits, unstaking, withdrawal: the accepted paths, every refusal,
//! and the dust-avoidance policy.

use pool_party::Contract;
use pool_party::PoolError;
use pool_party::UserInfo;

fn new_contract(min_deposit: u128, max_deposit: Option<u128>) -> Contract {
    Contract::new(
        "contract".to_string(),
        "guardian".to_string(),
        0,
        None,
        None,
        Some(min_deposit),
        max_deposit,
        None,
        None,
    )
}

#[test]
fn deposit_adds_tickets_and_commit_stakes_them() {
    let guardian = "guardian".to_string();
    let mut contract = new_contract(1, None);
    assert_eq!(contract.deposit_and_stake(&guardian, 50), Ok(()));
    assert_eq!(contract.pool.tickets, 50);
    // not yet committed to the user
    assert_eq!(contract.get_staked_for(&guardian), 0);
    assert_eq!(contract.deposit_and_stake_callback(true, &guardian, 50), None);
    assert_eq!(contract.get_staked_for(&guardian), 50);
    assert_eq!(contract.pool.tickets, 50);
    assert!(contract.is_registered(&guardian));
}

#[test]
fn failed_deposit_rolls_back_exactly_and_refunds_all() {
    let guardian = "guardian".to_string();
    let mut contract = new_contract(1, None);
    contract.deposit_and_stake(&guardian, 50).unwrap();
    contract.deposit_and_stake_callback(true, &guardian, 50);
    let before = contract.get_pool_info();
    contract.deposit_and_stake(&guardian, 20).unwrap();
    assert_eq!(contract.pool.tickets, 70);
    let refund = contract.deposit_and_stake_callback(false, &guardian, 20);
    assert_eq!(refund, Some(20));
    assert_eq!(contract.get_pool_info(), before);
    assert_eq!(contract.get_staked_for(&guardian), 50);
}

#[test]
fn deposit_refusals() {
    let guardian = "guardian".to_string();
    let ana = "ana".to_string();
    let mut contract = new_contract(10, Some(60));
    assert_eq!(
        contract.deposit_and_stake(&guardian, 5),
        Err(PoolError::BelowMinDeposit)
    );
    assert_eq!(
        contract.deposit_and_stake(&ana, 20),
        Err(PoolError::GuardianFirst)
    );
    assert_eq!(
        contract.deposit_and_stake(&guardian, 70),
        Err(PoolError::AboveMaxDeposit)
    );
    assert_eq!(contract.deposit_and_stake(&guardian, 40), Ok(()));
    contract.deposit_and_stake_callback(true, &guardian, 40);
    // 40 already staked, another 30 would pass the cap of 60
    assert_eq!(
        contract.deposit_and_stake(&guardian, 30),
        Err(PoolError::AboveMaxDeposit)
    );
    contract.emergency_start();
    assert_eq!(
        contract.deposit_and_stake(&guardian, 40),
        Err(PoolError::Emergency)
    );
    contract.emergency_stop();
    assert_eq!(contract.deposit_and_stake(&guardian, 20), Ok(()));
}

#[test]
fn unstake_moves_tickets_to_claimable() {
    let guardian = "guardian".to_string();
    let ana = "ana".to_string();
    let mut contract = new_contract(1, None);
    contract.deposit_and_stake(&guardian, 10).unwrap();
    contract.deposit_and_stake_callback(true, &guardian, 10);
    contract.deposit_and_stake(&ana, 7).unwrap();
    contract.deposit_and_stake_callback(true, &ana, 7);

    assert_eq!(contract.unstake(&ana, 3), Ok(()));
    assert_eq!(contract.get_staked_for(&ana), 4);
    assert_eq!(contract.get_user(&ana).unstaked, 3);
    assert_eq!(contract.get_user(&ana).withdraw_turn, Some(1));
    assert_eq!(contract.pool.to_unstake, 3);
    // the pool's ticket counter is only reduced when the external
    // unstake later succeeds
    assert_eq!(contract.pool.tickets, 17);
}

#[test]
fn unstake_refusals() {
    let guardian = "guardian".to_string();
    let bob = "bob".to_string();
    let mut contract = new_contract(1, None);
    contract.deposit_and_stake(&guardian, 10).unwrap();
    contract.deposit_and_stake_callback(true, &guardian, 10);
    assert_eq!(contract.unstake(&bob, 1), Err(PoolError::NotRegistered));
    assert_eq!(
        contract.unstake(&guardian, 11),
        Err(PoolError::AmountTooHigh)
    );
    contract.emergency_start();
    assert_eq!(contract.unstake(&guardian, 1), Err(PoolError::Emergency));
}

#[test]
fn dust_remainder_unstakes_whole_balance() {
    let guardian = "guardian".to_string();
    let mut contract = new_contract(3, None);
    contract.deposit_and_stake(&guardian, 5).unwrap();
    contract.deposit_and_stake_callback(true, &guardian, 5);
    // 5 - 4 = 1 is below the minimum deposit of 3: everything goes
    assert_eq!(contract.unstake(&guardian, 4), Ok(()));
    assert_eq!(contract.get_staked_for(&guardian), 0);
    assert_eq!(contract.get_user(&guardian).unstaked, 5);
    assert_eq!(contract.pool.to_unstake, 5);
}

#[test]
fn dust_rule_leaves_exact_requests_alone() {
    let guardian = "guardian".to_string();
    let mut contract = new_contract(3, None);
    contract.deposit_and_stake(&guardian, 8).unwrap();
    contract.deposit_and_stake_callback(true, &guardian, 8);
    // 8 - 5 = 3 reaches the minimum: only the requested amount goes
    assert_eq!(contract.unstake(&guardian, 5), Ok(()));
    assert_eq!(contract.get_staked_for(&guardian), 3);
    assert_eq!(contract.get_user(&guardian).unstaked, 5);
}

#[test]
fn withdraw_all_pays_once_and_fails_the_second_time() {
    let guardian = "guardian".to_string();
    let mut contract = new_contract(1, None);
    contract.deposit_and_stake(&guardian, 10).unwrap();
    contract.deposit_and_stake_callback(true, &guardian, 10);
    contract.unstake(&guardian, 4).unwrap();
    assert_eq!(contract.withdraw_all(&guardian, 0), Ok(4));
    assert_eq!(contract.get_user(&guardian).unstaked, 0);
    let pool_after = contract.get_pool_info();
    let info_after = contract.get_user_info(&guardian);
    // the second call finds nothing and changes nothing
    assert_eq!(
        contract.withdraw_all(&guardian, 0),
        Err(PoolError::NothingToWithdraw)
    );
    assert_eq!(contract.get_pool_info(), pool_after);
    assert_eq!(contract.get_user_info(&guardian), info_after);
}

#[test]
fn withdraw_refusals() {
    let guardian = "guardian".to_string();
    let bob = "bob".to_string();
    let mut contract = new_contract(1, None);
    contract.deposit_and_stake(&guardian, 10).unwrap();
    contract.deposit_and_stake_callback(true, &guardian, 10);
    assert_eq!(
        contract.withdraw_all(&bob, 0),
        Err(PoolError::NotRegistered)
    );
    // registered but never unstaked: no withdraw turn assigned
    assert_eq!(
        contract.withdraw_all(&guardian, 0),
        Err(PoolError::WithdrawNotReady)
    );
    contract.unstake(&guardian, 4).unwrap();
    contract.emergency_start();
    assert_eq!(
        contract.withdraw_all(&guardian, 0),
        Err(PoolError::Emergency)
    );
    contract.emergency_stop();
    // a successful external unstake starts the cooldown at epoch 10 + 4
    contract.interact_external(0).unwrap();
    contract.unstake_external_callback(4, true, 10);
    assert_eq!(
        contract.withdraw_all(&guardian, 5),
        Err(PoolError::EpochNotReached)
    );
    assert_eq!(contract.withdraw_all(&guardian, 14), Ok(4));
}

#[test]
fn user_info_reports_the_account() {
    let guardian = "guardian".to_string();
    let ana = "ana".to_string();
    let bob = "bob".to_string();
    let mut contract = new_contract(1, None);
    contract.deposit_and_stake(&guardian, 10).unwrap();
    contract.deposit_and_stake_callback(true, &guardian, 10);
    contract.deposit_and_stake(&ana, 7).unwrap();
    contract.deposit_and_stake_callback(true, &ana, 7);
    contract.unstake(&ana, 3).unwrap();
    assert_eq!(
        contract.get_user_info(&ana),
        UserInfo { staked: 4, unstaked: 3, available: false, withdraw_turn: 1 }
    );
    // a stranger reads as all zeroes
    assert_eq!(
        contract.get_user_info(&bob),
        UserInfo { staked: 0, unstaked: 0, available: false, withdraw_turn: 0 }
    );
}

#[test]
fn configuration_and_setters() {
    let mut contract = Contract::new(
        "external".to_string(),
        "guardian".to_string(),
        77,
        Some(2),
        Some(500),
        Some(3),
        Some(400),
        Some(6),
        Some(1000),
    );
    let config = contract.get_config();
    assert_eq!(config.external_pool, "external");
    assert_eq!(config.guardian, "guardian");
    assert_eq!(config.min_to_raffle, 2);
    assert_eq!(config.max_to_raffle, 500);
    assert_eq!(config.min_deposit, 3);
    assert_eq!(config.max_deposit, 400);
    assert_eq!(config.epochs_wait, 6);
    assert_eq!(config.time_between_raffles, 1000);
    assert!(!config.emergency);

    let pool = contract.get_pool_info();
    assert_eq!(pool.tickets, 0);
    assert_eq!(pool.next_raffle, 77);
    assert_eq!(pool.next_withdraw_turn, 1);
    assert_eq!(pool.next_withdraw_epoch, 0);
    assert_eq!(pool.pool_fee, 0);
    assert!(!pool.is_interacting);

    contract.set_time_between_raffles(5000);
    assert_eq!(contract.get_config().time_between_raffles, 5000);
    contract.set_epochs_wait(9);
    assert_eq!(contract.get_config().epochs_wait, 9);
    contract.set_pool_fee(25);
    assert_eq!(contract.get_pool_info().pool_fee, 25);

    contract.emergency_start();
    assert!(contract.get_config().emergency);
    contract.emergency_stop();
    assert!(!contract.get_config().emergency);
}

#[test]
fn fresh_pool_counters() {
    let pool = pool_party::pool::Pool::new(42);
    assert_eq!(pool.tickets, 0);
    assert_eq!(pool.to_unstake, 0);
    assert_eq!(pool.prize, 0);
    assert_eq!(pool.last_prize_update, 0);
    assert_eq!(pool.pool_fee, 0);
    assert_eq!(pool.next_raffle, 42);
    assert!(!pool.is_interacting);
    assert_eq!(pool.next_withdraw_turn, 1);
    assert_eq!(pool.next_withdraw_epoch, 0);
}

#[test]
fn defaults_fill_missing_configuration() {
    let contract = Contract::new(
        "external".to_string(),
        "guardian".to_string(),
        0,
        None,
        None,
        None,
        None,
        None,
        None,
    );
    let config = contract.get_config();
    assert_eq!(config.min_to_raffle, 100000000000000000000000);
    assert_eq!(config.max_to_raffle, 100000000000000000000000000);
    assert_eq!(config.min_deposit, 1000000000000000000000000);
    assert_eq!(config.max_deposit, 1000000000000000000000000000);
    assert_eq!(config.epochs_wait, 4);
    assert_eq!(config.time_between_raffles, 86400000);
}

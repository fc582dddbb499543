//! The external-interaction coordinator: the single-flight semaphore,
//! the unstake/withdraw two-phase protocol with its exact rollbacks, the
//! prize update, and the raffle.

use pool_party::Action;
use pool_party::Contract;
use pool_party::PoolError;
use pool_party::pool::ExternalUser;

fn new_contract() -> Contract {
    Contract::new(
        "contract".to_string(),
        "guardian".to_string(),
        0,
        Some(1),
        None,
        Some(1),
        None,
        None,
        None,
    )
}

fn deposit(contract: &mut Contract, user: &str, amount: u128) {
    let user = user.to_string();
    contract.deposit_and_stake(&user, amount).unwrap();
    contract.deposit_and_stake_callback(true, &user, amount);
}

fn report(staked_balance: u128) -> ExternalUser {
    ExternalUser { unstaked_balance: 0, staked_balance, available: false }
}

#[test]
fn semaphore_blocks_second_interaction() {
    let guardian = "guardian".to_string();
    let mut contract = new_contract();
    deposit(&mut contract, "guardian", 10);
    contract.unstake(&guardian, 3).unwrap();
    let now: u64 = 20000000000;
    // the prize update takes the semaphore ...
    assert_eq!(contract.update_prize(now), Ok(()));
    // ... so any further interaction is refused until it resolves
    assert_eq!(contract.update_prize(now), Err(PoolError::AlreadyInteracting));
    assert_eq!(
        contract.interact_external(0),
        Err(PoolError::AlreadyInteracting)
    );
    // the resumption always releases it, failure or not
    contract.update_prize_callback(report(0), false, now);
    assert!(!contract.get_pool_info().is_interacting);
    assert_eq!(contract.interact_external(0), Ok((Action::Unstake, 3)));
}

#[test]
fn start_and_stop_interacting_are_begin_and_end() {
    let mut contract = new_contract();
    assert_eq!(contract.start_interacting(), Ok(()));
    assert!(contract.get_pool_info().is_interacting);
    // begin is exclusive
    assert_eq!(
        contract.start_interacting(),
        Err(PoolError::AlreadyInteracting)
    );
    // end always succeeds and is idempotent
    contract.stop_interacting();
    assert!(!contract.get_pool_info().is_interacting);
    contract.stop_interacting();
    assert!(!contract.get_pool_info().is_interacting);
    assert_eq!(contract.start_interacting(), Ok(()));
}

#[test]
fn failed_external_unstake_restores_the_pool() {
    let guardian = "guardian".to_string();
    let mut contract = new_contract();
    deposit(&mut contract, "guardian", 10);
    contract.unstake(&guardian, 3).unwrap();
    let before = contract.get_pool_info();
    assert_eq!(before.next_withdraw_turn, 1);
    assert_eq!(contract.interact_external(0), Ok((Action::Unstake, 3)));
    // the request speculatively opened the next turn
    assert_eq!(contract.get_pool_info().next_withdraw_turn, 2);
    contract.unstake_external_callback(3, false, 50);
    // the failure restored every counter
    assert_eq!(contract.get_pool_info(), before);
    // and the protocol still wants to unstake
    assert_eq!(contract.interact_external(0), Ok((Action::Unstake, 3)));
}

#[test]
fn failed_external_withdraw_steps_the_epoch_back() {
    let guardian = "guardian".to_string();
    let mut contract = new_contract();
    deposit(&mut contract, "guardian", 10);
    contract.unstake(&guardian, 3).unwrap();
    contract.interact_external(0).unwrap();
    contract.unstake_external_callback(3, true, 10);
    // cooldown runs until epoch 10 + 4
    let before = contract.get_pool_info();
    assert_eq!(before.next_withdraw_epoch, 14);
    assert_eq!(
        contract.interact_external(13),
        Err(PoolError::EpochNotReached)
    );
    assert_eq!(contract.interact_external(14), Ok((Action::Withdraw, 0)));
    assert!(!contract.withdraw_external_callback(false));
    let after = contract.get_pool_info();
    assert_eq!(after.next_withdraw_epoch, 13);
    assert!(!after.is_interacting);
    assert_eq!(after.next_withdraw_turn, before.next_withdraw_turn);
    assert_eq!(after.tickets, before.tickets);
}

#[test]
fn unstake_withdraw_cycle_toggles_the_action() {
    let guardian = "guardian".to_string();
    let mut contract = new_contract();
    deposit(&mut contract, "guardian", 50);
    contract.unstake(&guardian, 10).unwrap();
    assert_eq!(contract.pool.tickets, 50);
    assert_eq!(contract.pool.to_unstake, 10);

    // nothing to withdraw yet: the protocol starts with an unstake
    assert_eq!(contract.interact_external(0), Ok((Action::Unstake, 10)));
    contract.unstake_external_callback(10, true, 100);
    let pool = contract.get_pool_info();
    assert_eq!(pool.tickets, 40);
    assert_eq!(pool.to_unstake, 0);
    assert_eq!(pool.next_withdraw_epoch, 104);
    assert!(!pool.is_interacting);

    // a second unstake is refused: the next interaction is the withdrawal
    assert_eq!(contract.interact_external(104), Ok((Action::Withdraw, 0)));
    assert!(contract.withdraw_external_callback(true));
    let pool = contract.get_pool_info();
    assert_eq!(pool.next_withdraw_turn, 3);
    assert!(!pool.is_interacting);

    // and the toggle is back at unstaking, with an empty queue
    assert_eq!(
        contract.interact_external(104),
        Err(PoolError::NothingToUnstake)
    );

    // the cohort of turn 1 may now withdraw
    assert_eq!(contract.withdraw_all(&guardian, 104), Ok(10));
}

#[test]
fn interact_external_honours_the_emergency_switch() {
    let guardian = "guardian".to_string();
    let mut contract = new_contract();
    deposit(&mut contract, "guardian", 10);
    contract.unstake(&guardian, 3).unwrap();
    contract.emergency_start();
    assert_eq!(contract.interact_external(0), Err(PoolError::Emergency));
    assert_eq!(contract.update_prize(20000000000), Err(PoolError::Emergency));
    assert_eq!(contract.raffle(0, &vec![0u8; 32]), Err(PoolError::Emergency));
}

#[test]
fn update_prize_records_the_external_excess() {
    let mut contract = new_contract();
    deposit(&mut contract, "guardian", 10);
    let now: u64 = 20000000000;
    assert_eq!(contract.update_prize(now), Ok(()));
    // the external service reports 15 staked against 10 tickets
    assert_eq!(contract.update_prize_callback(report(15), true, now), 5);
    let pool = contract.get_pool_info();
    assert_eq!(pool.prize, 5);
    assert_eq!(pool.last_prize_update, now);
    assert!(!pool.is_interacting);
    // too soon for another update
    assert_eq!(contract.update_prize(now), Err(PoolError::PrizeUpdateNotDue));
    // a failed query changes nothing but the semaphore
    let now2 = now + 10000000000;
    assert_eq!(contract.update_prize(now2), Ok(()));
    assert_eq!(contract.update_prize_callback(report(40), false, now2), 5);
    assert_eq!(contract.get_pool_info().prize, 5);
    assert_eq!(contract.get_pool_info().last_prize_update, now);
}

#[test]
fn update_prize_clamps_to_the_configured_maximum() {
    let mut contract = Contract::new(
        "contract".to_string(),
        "guardian".to_string(),
        0,
        Some(1),
        Some(3),
        Some(1),
        None,
        None,
        None,
    );
    deposit(&mut contract, "guardian", 10);
    let now: u64 = 20000000000;
    contract.update_prize(now).unwrap();
    // excess 7, clamped to the maximum of 3
    assert_eq!(contract.update_prize_callback(report(17), true, now), 3);
    assert_eq!(contract.get_pool_info().prize, 3);
    // a balance below the tickets means no excess at all
    let now2 = now + 10000000000;
    contract.update_prize(now2).unwrap();
    assert_eq!(contract.update_prize_callback(report(8), true, now2), 0);
    assert_eq!(contract.get_pool_info().prize, 0);
}

#[test]
fn raffle_pays_the_winner_and_rearms() {
    let mut contract = new_contract();
    deposit(&mut contract, "guardian", 1);
    deposit(&mut contract, "ana", 2);
    deposit(&mut contract, "bob", 3);
    deposit(&mut contract, "carol", 4);
    assert_eq!(contract.pool.tickets, 10);
    let now: u64 = 20000000000;
    contract.update_prize(now).unwrap();
    contract.update_prize_callback(report(15), true, now);
    assert_eq!(contract.get_pool_info().prize, 5);
    contract.set_pool_fee(10);

    // sixteen zero bytes draw ticket 1 + 0: the first ticket outside the
    // guardian's own range, owned by ana
    let seed = vec![0u8; 32];
    let winner = contract.raffle(now, &seed).unwrap();
    assert_eq!(winner, "ana");
    // 10% of 5 rounds down to 0 for the reserve; ana takes all 5
    assert_eq!(contract.get_staked_for(&"guardian".to_string()), 1);
    assert_eq!(contract.get_staked_for(&"ana".to_string()), 7);
    let pool = contract.get_pool_info();
    assert_eq!(pool.tickets, 15);
    assert_eq!(pool.prize, 0);
    assert_eq!(pool.next_raffle, now + 86400000);

    let winners = contract.get_winners(0, 10);
    assert_eq!(winners.len(), 1);
    assert_eq!(winners[0].0, "ana");
    assert_eq!(winners[0].1, 5);
    assert_eq!(winners[0].2, now);
    assert_eq!(contract.get_winners(1, 10).len(), 0);
}

#[test]
fn raffle_fee_goes_to_the_reserve() {
    let mut contract = new_contract();
    deposit(&mut contract, "guardian", 1);
    deposit(&mut contract, "ana", 2);
    let now: u64 = 20000000000;
    contract.update_prize(now).unwrap();
    contract.update_prize_callback(report(23), true, now);
    assert_eq!(contract.get_pool_info().prize, 20);
    contract.set_pool_fee(25);
    let winner = contract.raffle(now, &vec![0u8; 32]).unwrap();
    // ticket 1 + 0 % 2 = 1, ana's first ticket
    assert_eq!(winner, "ana");
    // 25% of 20 is 5 for the reserve, 15 for the winner
    assert_eq!(contract.get_staked_for(&"guardian".to_string()), 6);
    assert_eq!(contract.get_staked_for(&"ana".to_string()), 17);
    assert_eq!(contract.get_winners(0, 10)[0].1, 15);
}

#[test]
fn raffle_refusals() {
    let mut empty = new_contract();
    assert_eq!(
        empty.raffle(0, &vec![0u8; 32]),
        Err(PoolError::NoParticipants)
    );

    let mut contract = Contract::new(
        "contract".to_string(),
        "guardian".to_string(),
        1000,
        Some(1),
        None,
        Some(1),
        None,
        None,
        None,
    );
    deposit(&mut contract, "guardian", 1);
    deposit(&mut contract, "ana", 2);
    assert_eq!(
        contract.raffle(999, &vec![0u8; 32]),
        Err(PoolError::RaffleNotDue)
    );
    // due, but the prize is still empty
    assert_eq!(
        contract.raffle(1000, &vec![0u8; 32]),
        Err(PoolError::PrizeTooSmall)
    );
}

#[test]
fn random_draws_from_the_first_sixteen_bytes() {
    let contract = new_contract();
    let mut seed = vec![0u8; 32];
    seed[15] = 5;
    // the first sixteen bytes read 5 base-256: 10 + 5 % 10
    assert_eq!(contract.random_u128(10, 20, &seed), 15);
    seed[15] = 0;
    seed[14] = 1;
    // they now read 256: 10 + 256 % 10
    assert_eq!(contract.random_u128(10, 20, &seed), 16);
    // bytes beyond the sixteenth change nothing
    seed[16] = 99;
    seed[31] = 77;
    assert_eq!(contract.random_u128(10, 20, &seed), 16);
}

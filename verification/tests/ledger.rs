//! The weighted ledger tree: weights after deposits, re-stakes and
//! unstakes, and the deterministic ticket descent.

use pool_party::Contract;

fn new_contract(min_deposit: u128) -> Contract {
    Contract::new(
        "contract".to_string(),
        "guardian".to_string(),
        0,
        None,
        None,
        Some(min_deposit),
        None,
        None,
        None,
    )
}

fn weights_equal(contract: &Contract, expected_weights: &[u128]) -> bool {
    let weights: Vec<u128> = contract
        .users
        .tree
        .iter()
        .map(|user| user.weight)
        .collect::<Vec<u128>>();

    weights == expected_weights
}

#[test]
fn test_user_handling() {
    let guardian = "guardian".to_string();
    let mut contract = new_contract(1);

    contract.deposit_and_stake(&guardian, 1).unwrap();
    contract.deposit_and_stake_callback(true, &guardian, 1);

    for i in 1..3u128 {
        let user = format!("user{}", i);
        contract.deposit_and_stake(&user, i + 1).unwrap();
        contract.deposit_and_stake_callback(true, &user, i + 1);
    }

    contract.unstake(&"user1".to_string(), 1).unwrap();

    assert_eq!(contract.pool.tickets, 6);
    assert_eq!(contract.pool.to_unstake, 1);
}

#[test]
fn test_users_tree() {
    let guardian = "guardian".to_string();
    let mut contract = new_contract(1);

    contract.deposit_and_stake(&guardian, 1).unwrap();
    contract.deposit_and_stake_callback(true, &guardian, 1);

    for i in 1..10u128 {
        let user = format!("user{}", i);
        contract.deposit_and_stake(&user, i + 1).unwrap();
        contract.deposit_and_stake_callback(true, &user, i + 1);
    }

    assert!(weights_equal(
        &contract,
        &[55, 38, 16, 21, 15, 6, 7, 8, 9, 10]
    ));

    // Modify participants' weights
    contract.deposit_and_stake_callback(true, &"user5".to_string(), 2);
    contract.deposit_and_stake_callback(true, &"user7".to_string(), 1);

    assert!(weights_equal(
        &contract,
        &[58, 39, 18, 22, 15, 8, 7, 9, 9, 10]
    ));

    contract.deposit_and_stake_callback(true, &"user3".to_string(), 3);

    assert!(weights_equal(
        &contract,
        &[61, 42, 18, 25, 15, 8, 7, 9, 9, 10]
    ));

    contract.deposit_and_stake_callback(true, &guardian, 1);
    assert!(weights_equal(
        &contract,
        &[62, 42, 18, 25, 15, 8, 7, 9, 9, 10]
    ));

    contract.unstake(&"user8".to_string(), 1).unwrap();

    assert!(weights_equal(
        &contract,
        &[61, 41, 18, 24, 15, 8, 7, 9, 8, 10]
    ));

    contract.unstake(&"user4".to_string(), 3).unwrap();

    assert!(weights_equal(
        &contract,
        &[58, 38, 18, 24, 12, 8, 7, 9, 8, 10]
    ));

    assert_eq!(contract.find_user_with_ticket(0u128), 0);
    assert_eq!(contract.find_user_with_ticket(1u128), 0);
    assert_eq!(contract.find_user_with_ticket(2u128), 1);
    assert_eq!(contract.find_user_with_ticket(3u128), 1);
    assert_eq!(contract.find_user_with_ticket(40u128), 2);
    assert_eq!(contract.find_user_with_ticket(41u128), 2);
    assert_eq!(contract.find_user_with_ticket(4u128), 3);
    assert_eq!(contract.find_user_with_ticket(9u128), 3);
    assert_eq!(contract.find_user_with_ticket(44u128), 5);
    assert_eq!(contract.find_user_with_ticket(50u128), 5);
    assert_eq!(contract.find_user_with_ticket(51u128), 6);
    assert_eq!(contract.find_user_with_ticket(52u128), 6);
    assert_eq!(contract.find_user_with_ticket(57u128), 6);
    assert_eq!(contract.find_user_with_ticket(11u128), 7);
}

#[test]
fn tree_stays_balanced_after_every_mutation() {
    let guardian = "guardian".to_string();
    let mut contract = new_contract(1);
    contract.deposit_and_stake(&guardian, 1).unwrap();
    contract.deposit_and_stake_callback(true, &guardian, 1);
    for i in 1..8u128 {
        let user = format!("user{}", i);
        contract.deposit_and_stake(&user, i + 1).unwrap();
        contract.deposit_and_stake_callback(true, &user, i + 1);
        check_balance(&contract);
    }
    contract.unstake(&"user3".to_string(), 2).unwrap();
    check_balance(&contract);
}

fn check_balance(contract: &Contract) {
    let tree = &contract.users.tree;
    for i in 0..tree.len() {
        let left = if 2 * i + 1 < tree.len() {
            tree[2 * i + 1].weight
        } else {
            0
        };
        let right = if 2 * i + 2 < tree.len() {
            tree[2 * i + 2].weight
        } else {
            0
        };
        assert_eq!(tree[i].weight, tree[i].staked + left + right);
    }
}

use mirror_contracts::lock::{
    lock_position_funds_hook, release_position_funds, unlock_positions_funds, update_config,
    Config, LockError, PositionLockInfo,
};

fn config() -> Config {
    Config {
        owner: "owner0000".to_string(),
        mint_contract: "mint0000".to_string(),
        base_denom: "uusd".to_string(),
        lockup_period: 100,
    }
}

fn lock(
    balance: u128,
    total: u128,
    existing: Option<PositionLockInfo>,
    idx: u128,
    now: u64,
) -> (PositionLockInfo, u128, u128) {
    lock_position_funds_hook(
        &config(),
        &"mint0000".to_string(),
        balance,
        total,
        existing,
        idx,
        "addr0000".to_string(),
        now,
    )
    .unwrap()
}

#[test]
fn tests_proper_initialization() {
    let cfg = config();
    assert_eq!(cfg.owner, "owner0000");
    assert_eq!(cfg.mint_contract, "mint0000");
    assert_eq!(cfg.base_denom, "uusd");
    assert_eq!(cfg.lockup_period, 100);
}

#[test]
fn tests_update_config() {
    let mut cfg = config();
    let res = update_config(&mut cfg, &"owner0000".to_string(), Some("owner0001".to_string()), None, None, Some(200));
    assert_eq!(res, Ok(()));
    assert_eq!(cfg.owner, "owner0001");
    assert_eq!(cfg.lockup_period, 200);
    assert_eq!(cfg.mint_contract, "mint0000");

    let res = update_config(&mut cfg, &"owner0000".to_string(), None, Some("mint0001".to_string()), None, None);
    assert_eq!(res, Err(LockError::Unauthorized));
    assert_eq!(cfg.mint_contract, "mint0000");
}

#[test]
fn tests_lock_position_funds() {
    let res = lock_position_funds_hook(
        &config(),
        &"addr0000".to_string(),
        100,
        0,
        None,
        1,
        "addr0000".to_string(),
        20,
    );
    assert!(matches!(res, Err(LockError::Unauthorized)));

    let (info, total, amount) = lock(100, 0, None, 1, 20);
    assert_eq!(amount, 100);
    assert_eq!(total, 100);
    assert_eq!(info.idx, 1);
    assert_eq!(info.receiver, "addr0000");
    assert_eq!(info.locked_amount, 100);
    assert_eq!(info.unlock_time, 120);
}

#[test]
fn tests_unlock_position_funds() {
    // lock 100 twice at different times
    let (info, total, _) = lock(100, 0, None, 1, 1);
    let (info, total, _) = lock(200, total, Some(info), 1, 10);
    assert_eq!(info.locked_amount, 200);
    assert_eq!(info.unlock_time, 110);
    assert_eq!(total, 200);

    let infos = vec![info];
    // another receiver unlocks nothing
    let res = unlock_positions_funds(&"addr0001".to_string(), 120, &infos, total);
    assert!(matches!(res, Err(LockError::NoUnlockableFunds)));
    // too early
    let res = unlock_positions_funds(&"addr0000".to_string(), 50, &infos, total);
    assert!(matches!(res, Err(LockError::NoUnlockableFunds)));
    // unlock 200
    let (unlocked, amount, total) =
        unlock_positions_funds(&"addr0000".to_string(), 120, &infos, total).unwrap();
    assert_eq!(unlocked, vec![1]);
    assert_eq!(amount, 200);
    assert_eq!(total, 0);

    // the lock record is gone
    let res = unlock_positions_funds(&"mint0000".to_string(), 120, &vec![], total);
    assert!(matches!(res, Err(LockError::NoUnlockableFunds)));

    // two positions
    let (info2, total, _) = lock(100, total, None, 2, 1);
    let (info3, total, amount) = lock(300, total, None, 3, 2);
    assert_eq!(amount, 200);
    let (unlocked, amount, total) =
        unlock_positions_funds(&"addr0000".to_string(), 102, &vec![info2, info3], total).unwrap();
    assert_eq!(unlocked, vec![2, 3]);
    assert_eq!(amount, 300);
    assert_eq!(total, 0);
}

#[test]
fn tests_release_position_funds() {
    let (info, total, _) = lock(100, 0, None, 1, 1);
    let res = release_position_funds(&config(), &"addr0000".to_string(), Some(&info), total);
    assert_eq!(res, Err(LockError::Unauthorized));
    // the mint contract releases before the lock period is over
    let res = release_position_funds(&config(), &"mint0000".to_string(), Some(&info), total);
    assert_eq!(res, Ok(Some((100, 0))));
    // nothing left to release
    let res = release_position_funds(&config(), &"mint0000".to_string(), None, 0);
    assert_eq!(res, Ok(None));
}

#[test]
fn lock_refuses_foreign_receiver_and_empty_lock() {
    let (info, total, _) = lock(100, 0, None, 1, 1);
    let res = lock_position_funds_hook(
        &config(),
        &"mint0000".to_string(),
        150,
        total,
        Some(info),
        1,
        "addr0001".to_string(),
        5,
    );
    assert!(matches!(res, Err(LockError::ReceiverMismatch)));
    let res = lock_position_funds_hook(
        &config(),
        &"mint0000".to_string(),
        100,
        100,
        None,
        2,
        "addr0000".to_string(),
        5,
    );
    assert!(matches!(res, Err(LockError::NothingToLock)));
    let res = lock_position_funds_hook(
        &config(),
        &"mint0000".to_string(),
        50,
        100,
        None,
        2,
        "addr0000".to_string(),
        5,
    );
    assert!(matches!(res, Err(LockError::Overflow)));
}

#[test]
fn unlock_refuses_duplicate_position() {
    let a = PositionLockInfo { idx: 1, receiver: "addr0000".to_string(), locked_amount: 10, unlock_time: 0 };
    let b = PositionLockInfo { idx: 1, receiver: "addr0000".to_string(), locked_amount: 10, unlock_time: 0 };
    let res = unlock_positions_funds(&"addr0000".to_string(), 5, &vec![a, b], 20);
    assert!(matches!(res, Err(LockError::DuplicatePosition)));
}

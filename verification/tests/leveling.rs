use erc20_example::contract::Erc20Example;
use erc20_example::errors::Error;

fn fresh(cap: u128, reward: u128) -> Erc20Example {
    Erc20Example::constructor(1, String::from("Token"), String::from("TOK"), cap, reward)
        .unwrap()
}

#[test]
fn constructor_rejects_zero_cap() {
    let r = Erc20Example::constructor(1, String::from("Token"), String::from("TOK"), 0, 10);
    assert_eq!(r.err().unwrap(), Error::InvalidCap { cap: 0 });
}

#[test]
fn fresh_state_reads() {
    let c = fresh(100, 10);
    assert_eq!(c.owner(), 1);
    assert_eq!(c.total_supply(), 0);
    assert_eq!(c.cap(), 100);
    assert!(!c.paused());
    assert_eq!(c.name(), String::from("Token"));
    assert_eq!(c.symbol(), String::from("TOK"));
    assert_eq!(c.decimals(), 10);
    assert_eq!(c.balance_of(5), 0);
    assert_eq!(c.allowance(5, 6), 0);
}

#[test]
fn absent_account_has_level_zero() {
    let c = fresh(100, 10);
    assert_eq!(c.level_of(5), 0);
    assert_eq!(c.level_of(0), 0);
    assert_eq!(c.level_of(u64::MAX), 0);
}

#[test]
fn non_owner_rejected_everywhere() {
    let mut c = fresh(100, 10);
    assert_eq!(c.mint_owner(2, 5, 1).err().unwrap(), Error::NotOwner);
    assert_eq!(c.burn_from_by_owner(2, 5, 1).err().unwrap(), Error::NotOwner);
    assert_eq!(c.pause(2).err().unwrap(), Error::NotOwner);
    assert_eq!(c.unpause(2).err().unwrap(), Error::NotOwner);
    assert_eq!(c.level_up(2, 5).err().unwrap(), Error::NotOwner);
    assert_eq!(c.set_level(2, 5, 9).err().unwrap(), Error::NotOwner);
    assert_eq!(c.transfer_ownership(2, 2).err().unwrap(), Error::NotOwner);
    // nothing changed
    assert_eq!(c.owner(), 1);
    assert_eq!(c.total_supply(), 0);
    assert_eq!(c.level_of(5), 0);
    assert!(!c.paused());
}

#[test]
fn level_up_run_mints_every_third() {
    let mut c = fresh(100, 10);
    for k in 1..=6u64 {
        c.level_up(1, 5).unwrap();
        assert_eq!(c.level_of(5), k);
        assert_eq!(c.total_supply(), (k / 3) as u128 * 10);
    }
    assert_eq!(c.balance_of(5), 20);
}

#[test]
fn three_ups_mint_once_fourth_does_not() {
    // cap 100, reward 10, starting supply 0
    let mut c = fresh(100, 10);
    c.level_up(1, 5).unwrap();
    c.level_up(1, 5).unwrap();
    assert_eq!(c.total_supply(), 0);
    c.level_up(1, 5).unwrap();
    assert_eq!(c.total_supply(), 10);
    assert_eq!(c.level_of(5), 3);
    c.level_up(1, 5).unwrap();
    assert_eq!(c.total_supply(), 10);
    assert_eq!(c.level_of(5), 4);
}

#[test]
fn set_level_three_twice_mints_twice() {
    let mut c = fresh(100, 10);
    c.set_level(1, 5, 3).unwrap();
    assert_eq!(c.total_supply(), 10);
    c.set_level(1, 5, 3).unwrap();
    assert_eq!(c.total_supply(), 20);
    assert_eq!(c.level_of(5), 3);
    assert_eq!(c.balance_of(5), 20);
}

#[test]
fn set_level_zero_never_mints() {
    let mut c = fresh(100, 10);
    c.set_level(1, 5, 0).unwrap();
    assert_eq!(c.total_supply(), 0);
    assert_eq!(c.level_of(5), 0);
    c.set_level(1, 5, 5).unwrap();
    c.set_level(1, 5, 0).unwrap();
    assert_eq!(c.total_supply(), 0);
    assert_eq!(c.level_of(5), 0);
}

#[test]
fn set_level_plain_values_do_not_mint() {
    let mut c = fresh(100, 10);
    c.set_level(1, 5, 7).unwrap();
    assert_eq!(c.level_of(5), 7);
    assert_eq!(c.total_supply(), 0);
    // downwards is allowed
    c.set_level(1, 5, 2).unwrap();
    assert_eq!(c.level_of(5), 2);
    assert_eq!(c.total_supply(), 0);
}

#[test]
fn reward_over_cap_fails_and_rolls_back() {
    // cap 15, reward 10: the first reward fits, the second would not
    let mut c = fresh(15, 10);
    for _ in 0..5 {
        c.level_up(1, 5).unwrap();
    }
    assert_eq!(c.level_of(5), 5);
    assert_eq!(c.total_supply(), 10);
    let r = c.level_up(1, 5);
    assert_eq!(
        r.err().unwrap(),
        Error::ExceededCap { increased_supply: 20, cap: 15 }
    );
    // full rollback: the level write did not survive the failed mint
    assert_eq!(c.level_of(5), 5);
    assert_eq!(c.total_supply(), 10);
    let r2 = c.set_level(1, 7, 9);
    assert_eq!(
        r2.err().unwrap(),
        Error::ExceededCap { increased_supply: 20, cap: 15 }
    );
    assert_eq!(c.level_of(7), 0);
}

#[test]
fn ownership_transfer_revokes_old_owner() {
    let mut c = fresh(100, 10);
    c.transfer_ownership(1, 2).unwrap();
    assert_eq!(c.owner(), 2);
    assert_eq!(c.level_up(1, 5).err().unwrap(), Error::NotOwner);
    assert_eq!(c.transfer_ownership(1, 1).err().unwrap(), Error::NotOwner);
    c.level_up(2, 5).unwrap();
    assert_eq!(c.level_of(5), 1);
}

#[test]
fn level_saturates_at_max_and_still_mints() {
    // u64::MAX is a multiple of three, so the saturated level keeps minting
    let mut c = fresh(1000, 10);
    c.set_level(1, 5, u64::MAX).unwrap();
    assert_eq!(c.level_of(5), u64::MAX);
    assert_eq!(c.total_supply(), 10);
    c.level_up(1, 5).unwrap();
    assert_eq!(c.level_of(5), u64::MAX);
    assert_eq!(c.total_supply(), 20);
}

#[test]
fn reward_to_null_account_is_refused() {
    let mut c = fresh(100, 10);
    // no mint involved: fine
    c.level_up(1, 0).unwrap();
    c.level_up(1, 0).unwrap();
    assert_eq!(c.level_of(0), 2);
    // the third would mint to the null account
    assert_eq!(
        c.level_up(1, 0).err().unwrap(),
        Error::InvalidReceiver { receiver: 0 }
    );
    assert_eq!(c.level_of(0), 2);
    assert_eq!(
        c.set_level(1, 0, 3).err().unwrap(),
        Error::InvalidReceiver { receiver: 0 }
    );
    c.set_level(1, 0, 4).unwrap();
    assert_eq!(c.level_of(0), 4);
}

#[test]
fn paused_leveling_only_blocks_the_mint() {
    let mut c = fresh(100, 10);
    c.pause(1).unwrap();
    // no reward crossing: the pause switch is never consulted
    c.level_up(1, 5).unwrap();
    c.level_up(1, 5).unwrap();
    assert_eq!(c.level_of(5), 2);
    // the third crossing needs a mint, which the pause refuses
    assert_eq!(c.level_up(1, 5).err().unwrap(), Error::EnforcedPause);
    assert_eq!(c.level_of(5), 2);
    assert_eq!(c.set_level(1, 5, 6).err().unwrap(), Error::EnforcedPause);
    c.unpause(1).unwrap();
    c.level_up(1, 5).unwrap();
    assert_eq!(c.level_of(5), 3);
    assert_eq!(c.total_supply(), 10);
}

#[test]
fn supports_the_three_interfaces() {
    let c = fresh(100, 10);
    assert!(c.supports_interface(0x36372b07));
    assert!(c.supports_interface(0xa219a025));
    assert!(c.supports_interface(0x01ffc9a7));
    assert!(!c.supports_interface(0xffffffff));
    assert!(!c.supports_interface(0));
}

use erc20_example::contract::Erc20Example;
use erc20_example::errors::Error;

fn funded(cap: u128, reward: u128) -> Erc20Example {
    let mut c =
        Erc20Example::constructor(1, String::from("Token"), String::from("TOK"), cap, reward)
            .unwrap();
    c.mint_owner(1, 5, 50).unwrap();
    c
}

#[test]
fn mint_owner_credits_and_counts() {
    let c = funded(100, 10);
    assert_eq!(c.total_supply(), 50);
    assert_eq!(c.balance_of(5), 50);
    assert_eq!(c.balance_of(6), 0);
}

#[test]
fn mint_over_cap_is_refused() {
    let mut c = funded(100, 10);
    let r = c.mint_owner(1, 5, 51);
    assert_eq!(
        r.err().unwrap(),
        Error::ExceededCap { increased_supply: 101, cap: 100 }
    );
    assert_eq!(c.total_supply(), 50);
    // exactly up to the cap is fine
    c.mint_owner(1, 5, 50).unwrap();
    assert_eq!(c.total_supply(), 100);
}

#[test]
fn mint_to_null_account_is_refused() {
    let mut c = funded(100, 10);
    assert_eq!(
        c.mint_owner(1, 0, 1).err().unwrap(),
        Error::InvalidReceiver { receiver: 0 }
    );
}

#[test]
fn transfer_moves_tokens() {
    let mut c = funded(100, 10);
    assert!(c.transfer(5, 6, 20).unwrap());
    assert_eq!(c.balance_of(5), 30);
    assert_eq!(c.balance_of(6), 20);
    assert_eq!(c.total_supply(), 50);
    // a self-transfer changes nothing
    assert!(c.transfer(5, 5, 10).unwrap());
    assert_eq!(c.balance_of(5), 30);
}

#[test]
fn transfer_error_cases() {
    let mut c = funded(100, 10);
    assert_eq!(
        c.transfer(5, 0, 1).err().unwrap(),
        Error::InvalidReceiver { receiver: 0 }
    );
    assert_eq!(
        c.transfer(0, 6, 1).err().unwrap(),
        Error::InvalidSender { sender: 0 }
    );
    assert_eq!(
        c.transfer(5, 6, 51).err().unwrap(),
        Error::InsufficientBalance { sender: 5, balance: 50, needed: 51 }
    );
    assert_eq!(c.balance_of(5), 50);
    assert_eq!(c.balance_of(6), 0);
}

#[test]
fn approve_and_read_back() {
    let mut c = funded(100, 10);
    assert!(c.approve(5, 6, 30).unwrap());
    assert_eq!(c.allowance(5, 6), 30);
    assert_eq!(c.allowance(6, 5), 0);
    // a second approve replaces, not adds
    assert!(c.approve(5, 6, 7).unwrap());
    assert_eq!(c.allowance(5, 6), 7);
}

#[test]
fn approve_null_identities_refused() {
    let mut c = funded(100, 10);
    assert_eq!(
        c.approve(0, 6, 1).err().unwrap(),
        Error::InvalidApprover { approver: 0 }
    );
    assert_eq!(
        c.approve(5, 0, 1).err().unwrap(),
        Error::InvalidSpender { spender: 0 }
    );
}

#[test]
fn transfer_from_spends_allowance() {
    let mut c = funded(100, 10);
    c.approve(5, 6, 30).unwrap();
    assert!(c.transfer_from(6, 5, 7, 20).unwrap());
    assert_eq!(c.balance_of(5), 30);
    assert_eq!(c.balance_of(7), 20);
    assert_eq!(c.allowance(5, 6), 10);
    assert_eq!(
        c.transfer_from(6, 5, 7, 11).err().unwrap(),
        Error::InsufficientAllowance { spender: 6, allowance: 10, needed: 11 }
    );
    assert_eq!(c.balance_of(5), 30);
    assert_eq!(c.allowance(5, 6), 10);
}

#[test]
fn infinite_allowance_is_never_drawn_down() {
    let mut c = funded(100, 10);
    c.approve(5, 6, u128::MAX).unwrap();
    assert!(c.transfer_from(6, 5, 7, 20).unwrap());
    assert_eq!(c.allowance(5, 6), u128::MAX);
    assert_eq!(c.balance_of(7), 20);
}

#[test]
fn transfer_from_failure_leaves_allowance() {
    let mut c = funded(100, 10);
    c.approve(5, 6, 60).unwrap();
    assert_eq!(
        c.transfer_from(6, 5, 7, 51).err().unwrap(),
        Error::InsufficientBalance { sender: 5, balance: 50, needed: 51 }
    );
    assert_eq!(c.allowance(5, 6), 60);
    assert_eq!(
        c.transfer_from(6, 5, 0, 1).err().unwrap(),
        Error::InvalidReceiver { receiver: 0 }
    );
    assert_eq!(c.allowance(5, 6), 60);
}

#[test]
fn burn_reduces_supply() {
    let mut c = funded(100, 10);
    c.burn(5, 20).unwrap();
    assert_eq!(c.balance_of(5), 30);
    assert_eq!(c.total_supply(), 30);
    assert_eq!(
        c.burn(5, 31).err().unwrap(),
        Error::InsufficientBalance { sender: 5, balance: 30, needed: 31 }
    );
    assert_eq!(
        c.burn(0, 1).err().unwrap(),
        Error::InvalidSender { sender: 0 }
    );
}

#[test]
fn burn_from_spends_allowance() {
    let mut c = funded(100, 10);
    c.approve(5, 6, 30).unwrap();
    c.burn_from(6, 5, 20).unwrap();
    assert_eq!(c.balance_of(5), 30);
    assert_eq!(c.total_supply(), 30);
    assert_eq!(c.allowance(5, 6), 10);
    assert_eq!(
        c.burn_from(6, 5, 11).err().unwrap(),
        Error::InsufficientAllowance { spender: 6, allowance: 10, needed: 11 }
    );
}

#[test]
fn owner_burn_needs_no_allowance() {
    let mut c = funded(100, 10);
    c.burn_from_by_owner(1, 5, 20).unwrap();
    assert_eq!(c.balance_of(5), 30);
    assert_eq!(c.total_supply(), 30);
    assert_eq!(
        c.burn_from_by_owner(1, 5, 31).err().unwrap(),
        Error::InsufficientBalance { sender: 5, balance: 30, needed: 31 }
    );
}

#[test]
fn pause_blocks_token_movement() {
    let mut c = funded(100, 10);
    c.approve(5, 6, 30).unwrap();
    c.pause(1).unwrap();
    assert!(c.paused());
    assert_eq!(c.transfer(5, 6, 1).err().unwrap(), Error::EnforcedPause);
    assert_eq!(c.transfer_from(6, 5, 7, 1).err().unwrap(), Error::EnforcedPause);
    assert_eq!(c.mint_owner(1, 5, 1).err().unwrap(), Error::EnforcedPause);
    assert_eq!(c.burn(5, 1).err().unwrap(), Error::EnforcedPause);
    assert_eq!(c.burn_from(6, 5, 1).err().unwrap(), Error::EnforcedPause);
    assert_eq!(c.burn_from_by_owner(1, 5, 1).err().unwrap(), Error::EnforcedPause);
    // approvals are not pause-gated
    assert!(c.approve(5, 6, 40).unwrap());
    assert_eq!(c.allowance(5, 6), 40);
    // pausing twice is refused; unpausing twice likewise
    assert_eq!(c.pause(1).err().unwrap(), Error::EnforcedPause);
    c.unpause(1).unwrap();
    assert_eq!(c.unpause(1).err().unwrap(), Error::ExpectedPause);
    assert!(c.transfer(5, 6, 1).unwrap());
}

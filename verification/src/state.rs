use vstd::prelude::*;

use crate::errors::Error;

verus! {

/// The mathematical state of the contract. Every operation's contract is
/// stated as a transition on this state, paired with a spec function that
/// names the error the operation returns, if any.
#[verifier::ext_equal]
pub ghost struct StateV {
    /// The one account allowed to call the owner-gated operations.
    pub owner: u64,
    /// Per-account levels; an account outside the map has level zero.
    pub levels: Map<u64, u64>,
    /// How many tokens a reward mint issues.
    pub reward_amount: u128,
    /// The total supply may never exceed this bound.
    pub cap: u128,
    /// While set, transfers, mints and burns are refused.
    pub paused: bool,
    /// The number of tokens in circulation.
    pub supply: u128,
    /// Per-account balances; an account outside the map holds zero.
    pub balances: Map<u64, u128>,
    /// Per-(owner, spender) allowances; a pair outside the map has zero.
    pub allowances: Map<(u64, u64), u128>,
    /// The token's name.
    pub name: Seq<char>,
    /// The token's ticker symbol.
    pub symbol: Seq<char>,
}

/// The level of `account`: the stored value, or zero when absent.
pub open spec fn level_of_st(s: StateV, account: u64) -> u64 {
    if s.levels.contains_key(account) {
        s.levels[account]
    } else {
        0
    }
}

/// The balance of `account`: the stored value, or zero when absent.
pub open spec fn bal_of_st(s: StateV, account: u64) -> u128 {
    if s.balances.contains_key(account) {
        s.balances[account]
    } else {
        0
    }
}

/// The allowance `owner` has granted `spender`: the stored value, or zero
/// when absent.
pub open spec fn allowance_of_st(s: StateV, owner: u64, spender: u64) -> u128 {
    if s.allowances.contains_key((owner, spender)) {
        s.allowances[(owner, spender)]
    } else {
        0
    }
}

/// A level increment saturates at the largest representable level instead
/// of wrapping.
pub open spec fn sat_inc(level: u64) -> u64 {
    if level == u64::MAX {
        level
    } else {
        (level + 1) as u64
    }
}

/// Why a mint of `value` tokens to `to` fails, checked in this order:
/// the pause switch, then the cap, then the zero receiver.
pub open spec fn mint_err(s: StateV, to: u64, value: u128) -> Option<Error> {
    if s.paused {
        Some(Error::EnforcedPause)
    } else if s.supply + value > s.cap {
        Some(
            (Error::ExceededCap { increased_supply: (s.supply + value) as u128, cap: s.cap }),
        )
    } else if to == 0 {
        Some((Error::InvalidReceiver { receiver: to }))
    } else {
        None
    }
}

/// The state after a successful mint: the supply and the receiver's balance
/// both grow by `value`.
pub open spec fn mint_st(s: StateV, to: u64, value: u128) -> StateV {
    StateV {
        supply: (s.supply + value) as u128,
        balances: s.balances.insert(to, (bal_of_st(s, to) + value) as u128),
        ..s
    }
}

/// Why a burn of `value` tokens from `from` fails: the zero sender, then a
/// balance short of `value`.
pub open spec fn burn_err(s: StateV, from: u64, value: u128) -> Option<Error> {
    if from == 0 {
        Some((Error::InvalidSender { sender: from }))
    } else if bal_of_st(s, from) < value {
        Some(
            (Error::InsufficientBalance {
                sender: from,
                balance: bal_of_st(s, from),
                needed: value,
            }),
        )
    } else {
        None
    }
}

/// The state after a successful burn: the supply and the sender's balance
/// both shrink by `value`.
pub open spec fn burn_st(s: StateV, from: u64, value: u128) -> StateV {
    StateV {
        supply: (s.supply - value) as u128,
        balances: s.balances.insert(from, (bal_of_st(s, from) - value) as u128),
        ..s
    }
}

/// Why moving `value` tokens from `from` to `to` fails: the zero sender,
/// then the zero receiver, then a balance short of `value`.
pub open spec fn transfer_core_err(s: StateV, from: u64, to: u64, value: u128) -> Option<Error> {
    if from == 0 {
        Some((Error::InvalidSender { sender: from }))
    } else if to == 0 {
        Some((Error::InvalidReceiver { receiver: to }))
    } else if bal_of_st(s, from) < value {
        Some(
            (Error::InsufficientBalance {
                sender: from,
                balance: bal_of_st(s, from),
                needed: value,
            }),
        )
    } else {
        None
    }
}

/// The state after a successful transfer: `value` leaves `from`, then lands
/// on `to` (in that order, so a self-transfer leaves the balance as it was).
pub open spec fn transfer_core_st(s: StateV, from: u64, to: u64, value: u128) -> StateV {
    let s1 = StateV {
        balances: s.balances.insert(from, (bal_of_st(s, from) - value) as u128),
        ..s
    };
    StateV { balances: s1.balances.insert(to, (bal_of_st(s1, to) + value) as u128), ..s1 }
}

/// Why spending `value` of the allowance `owner` granted `spender` fails:
/// only when the allowance is finite and short of `value`. The largest
/// representable allowance counts as infinite and is never drawn down.
pub open spec fn spend_err(s: StateV, owner: u64, spender: u64, value: u128) -> Option<Error> {
    let cur = allowance_of_st(s, owner, spender);
    if cur != u128::MAX && cur < value {
        Some((Error::InsufficientAllowance { spender: spender, allowance: cur, needed: value }))
    } else {
        None
    }
}

/// The state after spending allowance: a finite allowance shrinks by
/// `value`; an infinite one is untouched.
pub open spec fn spend_st(s: StateV, owner: u64, spender: u64, value: u128) -> StateV {
    let cur = allowance_of_st(s, owner, spender);
    if cur == u128::MAX {
        s
    } else {
        StateV { allowances: s.allowances.insert((owner, spender), (cur - value) as u128), ..s }
    }
}

/// Why `level_up` fails: the owner gate first; then, exactly when the new
/// level lands on a multiple of three, whatever makes the reward mint fail.
pub open spec fn level_up_err(s: StateV, caller: u64, account: u64) -> Option<Error> {
    if caller != s.owner {
        Some(Error::NotOwner)
    } else if sat_inc(level_of_st(s, account)) % 3 == 0 {
        mint_err(s, account, s.reward_amount)
    } else {
        None
    }
}

/// The state after a successful `level_up`: the level grows by one
/// (saturating), and when the new level is a multiple of three the reward
/// mint lands on top.
pub open spec fn level_up_st(s: StateV, account: u64) -> StateV {
    let n = sat_inc(level_of_st(s, account));
    let s1 = StateV { levels: s.levels.insert(account, n), ..s };
    if n % 3 == 0 {
        mint_st(s1, account, s.reward_amount)
    } else {
        s1
    }
}

/// Why `set_level` fails: the owner gate first; then, exactly when the new
/// level is a positive multiple of three, whatever makes the reward mint
/// fail. The divisibility test looks only at the new value, never at the
/// stored one, so repeated sets to the same multiple of three mint again
/// each time.
pub open spec fn set_level_err(s: StateV, caller: u64, account: u64, new_level: u64) -> Option<
    Error,
> {
    if caller != s.owner {
        Some(Error::NotOwner)
    } else if new_level > 0 && new_level % 3 == 0 {
        mint_err(s, account, s.reward_amount)
    } else {
        None
    }
}

/// The state after a successful `set_level`: the level is overwritten with
/// `new_level`, and when that is a positive multiple of three the reward
/// mint lands on top.
pub open spec fn set_level_st(s: StateV, account: u64, new_level: u64) -> StateV {
    let s1 = StateV { levels: s.levels.insert(account, new_level), ..s };
    if new_level > 0 && new_level % 3 == 0 {
        mint_st(s1, account, s.reward_amount)
    } else {
        s1
    }
}

/// Why `mint_owner` fails: the owner gate, then the mint checks.
pub open spec fn mint_owner_err(s: StateV, caller: u64, to: u64, value: u128) -> Option<Error> {
    if caller != s.owner {
        Some(Error::NotOwner)
    } else {
        mint_err(s, to, value)
    }
}

/// Why `burn_from_by_owner` fails: the owner gate, the pause switch, then
/// the burn checks.
pub open spec fn owner_burn_err(s: StateV, caller: u64, account: u64, value: u128) -> Option<
    Error,
> {
    if caller != s.owner {
        Some(Error::NotOwner)
    } else if s.paused {
        Some(Error::EnforcedPause)
    } else {
        burn_err(s, account, value)
    }
}

/// Why `pause` fails: the owner gate, then an already-set switch.
pub open spec fn pause_err(s: StateV, caller: u64) -> Option<Error> {
    if caller != s.owner {
        Some(Error::NotOwner)
    } else if s.paused {
        Some(Error::EnforcedPause)
    } else {
        None
    }
}

/// Why `unpause` fails: the owner gate, then an already-clear switch.
pub open spec fn unpause_err(s: StateV, caller: u64) -> Option<Error> {
    if caller != s.owner {
        Some(Error::NotOwner)
    } else if !s.paused {
        Some(Error::ExpectedPause)
    } else {
        None
    }
}

/// Why `transfer_ownership` fails: only the owner gate.
pub open spec fn transfer_ownership_err(s: StateV, caller: u64) -> Option<Error> {
    if caller != s.owner {
        Some(Error::NotOwner)
    } else {
        None
    }
}

/// Why `transfer` fails: the pause switch, then the transfer checks.
pub open spec fn transfer_err(s: StateV, caller: u64, to: u64, value: u128) -> Option<Error> {
    if s.paused {
        Some(Error::EnforcedPause)
    } else {
        transfer_core_err(s, caller, to, value)
    }
}

/// Why `transfer_from` fails: the pause switch, the allowance, then the
/// transfer checks.
pub open spec fn transfer_from_err(s: StateV, caller: u64, from: u64, to: u64, value: u128) -> Option<
    Error,
> {
    if s.paused {
        Some(Error::EnforcedPause)
    } else if spend_err(s, from, caller, value) is Some {
        spend_err(s, from, caller, value)
    } else {
        transfer_core_err(s, from, to, value)
    }
}

/// Why `approve` fails: the null approver, then the null spender.
pub open spec fn approve_err(s: StateV, caller: u64, spender: u64) -> Option<Error> {
    if caller == 0 {
        Some((Error::InvalidApprover { approver: caller }))
    } else if spender == 0 {
        Some((Error::InvalidSpender { spender: spender }))
    } else {
        None
    }
}

/// Why `burn` fails: the pause switch, then the burn checks.
pub open spec fn burn_op_err(s: StateV, caller: u64, value: u128) -> Option<Error> {
    if s.paused {
        Some(Error::EnforcedPause)
    } else {
        burn_err(s, caller, value)
    }
}

/// Why `burn_from` fails: the pause switch, the allowance, then the burn
/// checks.
pub open spec fn burn_from_err(s: StateV, caller: u64, account: u64, value: u128) -> Option<
    Error,
> {
    if s.paused {
        Some(Error::EnforcedPause)
    } else if spend_err(s, account, caller, value) is Some {
        spend_err(s, account, caller, value)
    } else {
        burn_err(s, account, value)
    }
}

/// When false, the raised supply has no representable value to compare
/// against the cap; such inputs lie outside the minting operations'
/// domain and their `requires` leave them out.
pub open spec fn mint_fits(s: StateV, value: u128) -> bool {
    !s.paused ==> s.supply + value <= u128::MAX
}

/// `mint_owner` reaches its addition only for the owner.
pub open spec fn mint_owner_fits(s: StateV, caller: u64, value: u128) -> bool {
    caller == s.owner ==> mint_fits(s, value)
}

/// `level_up` reaches the reward addition only for the owner and only when
/// the new level lands on a multiple of three.
pub open spec fn level_up_fits(s: StateV, caller: u64, account: u64) -> bool {
    (caller == s.owner && sat_inc(level_of_st(s, account)) % 3 == 0) ==> mint_fits(
        s,
        s.reward_amount,
    )
}

/// `set_level` reaches the reward addition only for the owner and only when
/// the new level is a positive multiple of three.
pub open spec fn set_level_fits(s: StateV, caller: u64, new_level: u64) -> bool {
    (caller == s.owner && new_level > 0 && new_level % 3 == 0) ==> mint_fits(s, s.reward_amount)
}

} // verus!

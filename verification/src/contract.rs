use vstd::prelude::*;

use crate::errors::Error;
use crate::state::{
    allowance_of_st, bal_of_st, burn_err, burn_st, level_of_st, level_up_err, level_up_fits,
    level_up_st, mint_err, mint_fits, mint_owner_err, mint_owner_fits, mint_st, owner_burn_err,
    pause_err, set_level_err, set_level_fits, set_level_st, spend_st, transfer_core_err,
    transfer_core_st, transfer_err, transfer_from_err, transfer_ownership_err, unpause_err,
    approve_err, burn_op_err, burn_from_err, StateV,
};
use crate::tables::{AllowanceTable, BalanceTable, LevelTable};

verus! {

/// The number of decimal places every instance reports.
pub const DECIMALS: u8 = 10;

/// The interface identifier of the base token operations.
pub const ERC20_INTERFACE_ID: u32 = 0x36372b07;

/// The interface identifier of the name/symbol/decimals extension.
pub const ERC20_METADATA_INTERFACE_ID: u32 = 0xa219a025;

/// The interface identifier of interface introspection itself.
pub const ERC165_INTERFACE_ID: u32 = 0x01ffc9a7;

/// A capped, pausable fungible-token ledger with an owner-gated leveling
/// mechanic: every time an account's level lands on a multiple of three,
/// the contract mints it a fixed reward.
///
/// Accounts are plain identities; the identity `0` is the reserved null
/// account, which can neither send, receive, nor be approved. The caller of
/// each operation is passed in explicitly. Every operation either succeeds
/// with the state transition its contract names, or fails with the error
/// its contract names and leaves the state exactly as it was.
pub struct Erc20Example {
    owner: u64,
    levels: LevelTable,
    reward_amount: u128,
    cap: u128,
    is_paused: bool,
    supply: u128,
    balances: BalanceTable,
    allowances: AllowanceTable,
    token_name: String,
    token_symbol: String,
}

impl View for Erc20Example {
    type V = StateV;

    closed spec fn view(&self) -> StateV {
        StateV {
            owner: self.owner,
            levels: self.levels@,
            reward_amount: self.reward_amount,
            cap: self.cap,
            paused: self.is_paused,
            supply: self.supply,
            balances: self.balances@,
            allowances: self.allowances@,
            name: self.token_name@,
            symbol: self.token_symbol@,
        }
    }
}

impl Erc20Example {
    /// The internal invariant: the tables denote their maps unambiguously,
    /// the cap is positive, the supply respects it, and the supply equals
    /// the sum of all balances.
    pub closed spec fn wf(self) -> bool {
        &&& self.levels.wf()
        &&& self.balances.wf()
        &&& self.allowances.wf()
        &&& self.cap > 0
        &&& self.supply <= self.cap
        &&& self.balances.total() == self.supply
    }

    /// Sets up a fresh instance: no levels, no balances, no allowances,
    /// zero supply, unpaused, with the given owner, metadata, cap and
    /// reward amount. Rejects a zero cap with `InvalidCap`; any owner is
    /// accepted, the null account included.
    pub fn constructor(
        owner: u64,
        name: String,
        symbol: String,
        cap: u128,
        reward_amount: u128,
    ) -> (r: Result<Erc20Example, Error>)
        ensures
            match r {
                Ok(c) => c.wf() && cap > 0 && c@ == (StateV {
                    owner: owner,
                    levels: Map::empty(),
                    reward_amount: reward_amount,
                    cap: cap,
                    paused: false,
                    supply: 0,
                    balances: Map::empty(),
                    allowances: Map::empty(),
                    name: name@,
                    symbol: symbol@,
                }),
                Err(e) => cap == 0 && e == (Error::InvalidCap { cap: cap }),
            },
    {
        if cap == 0 {
            return Err(Error::InvalidCap { cap });
        }
        let c = Erc20Example {
            owner,
            levels: LevelTable::new(),
            reward_amount,
            cap,
            is_paused: false,
            supply: 0,
            balances: BalanceTable::new(),
            allowances: AllowanceTable::new(),
            token_name: name,
            token_symbol: symbol,
        };
        Ok(c)
    }

    /// The access gate: succeeds exactly for the stored owner, otherwise
    /// `NotOwner`. Reads nothing else and changes nothing.
    fn ensure_owner(&self, caller: u64) -> (r: Result<(), Error>)
        ensures
            r is Ok <==> caller == self@.owner,
            r is Err ==> r == Err::<(), Error>(Error::NotOwner),
    {
        if caller != self.owner {
            return Err(Error::NotOwner);
        }
        Ok(())
    }

    /// Mints `value` tokens to `to` unless paused, over the cap, or aimed
    /// at the null account; shared by the owner mint and the reward mints.
    fn mint_checked(&mut self, to: u64, value: u128) -> (r: Result<(), Error>)
        requires
            old(self).wf(),
            mint_fits(old(self)@, value),
        ensures
            final(self).wf(),
            match r {
                Ok(()) => mint_err(old(self)@, to, value) is None && final(self)@ == mint_st(
                    old(self)@,
                    to,
                    value,
                ),
                Err(e) => Some(e) == mint_err(old(self)@, to, value) && final(self)@ == old(self)@,
            },
    {
        if self.is_paused {
            return Err(Error::EnforcedPause);
        }
        let increased: u128 = self.supply + value;
        if increased > self.cap {
            return Err(Error::ExceededCap { increased_supply: increased, cap: self.cap });
        }
        if to == 0 {
            return Err(Error::InvalidReceiver { receiver: to });
        }
        let b = self.balances.get(to);
        proof {
            self.balances.lemma_bal_le_total(to);
        }
        self.balances.set(to, b + value);
        self.supply = increased;
        proof {
            assert(self@ =~= mint_st(old(self)@, to, value));
        }
        Ok(())
    }

    /// Owner-gated mint: `NotOwner` for anyone else, then the mint checks
    /// in their stated order.
    pub fn mint_owner(&mut self, caller: u64, to: u64, value: u128) -> (r: Result<(), Error>)
        requires
            old(self).wf(),
            mint_owner_fits(old(self)@, caller, value),
        ensures
            final(self).wf(),
            match r {
                Ok(()) => mint_owner_err(old(self)@, caller, to, value) is None && final(self)@
                    == mint_st(old(self)@, to, value),
                Err(e) => Some(e) == mint_owner_err(old(self)@, caller, to, value) && final(self)@ == old(self)@,
            },
    {
        if let Err(e) = self.ensure_owner(caller) {
            return Err(e);
        }
        self.mint_checked(to, value)
    }

    /// Burns `value` tokens from `from` unless `from` is the null account
    /// or holds fewer than `value`; shared by the burn entry points.
    fn burn_checked(&mut self, from: u64, value: u128) -> (r: Result<(), Error>)
        requires
            old(self).wf(),
        ensures
            final(self).wf(),
            match r {
                Ok(()) => burn_err(old(self)@, from, value) is None && final(self)@ == burn_st(
                    old(self)@,
                    from,
                    value,
                ),
                Err(e) => Some(e) == burn_err(old(self)@, from, value) && final(self)@ == old(self)@,
            },
    {
        if from == 0 {
            return Err(Error::InvalidSender { sender: from });
        }
        let b = self.balances.get(from);
        if b < value {
            return Err(Error::InsufficientBalance { sender: from, balance: b, needed: value });
        }
        proof {
            self.balances.lemma_bal_le_total(from);
        }
        self.balances.set(from, b - value);
        self.supply = self.supply - value;
        proof {
            assert(self@ =~= burn_st(old(self)@, from, value));
        }
        Ok(())
    }

    /// Owner-gated burn of another account's tokens, needing no allowance:
    /// `NotOwner` for anyone else, `EnforcedPause` while paused, then the
    /// burn checks in their stated order.
    pub fn burn_from_by_owner(&mut self, caller: u64, account: u64, value: u128) -> (r: Result<
        (),
        Error,
    >)
        requires
            old(self).wf(),
        ensures
            final(self).wf(),
            match r {
                Ok(()) => owner_burn_err(old(self)@, caller, account, value) is None && final(self)@ == burn_st(old(self)@, account, value),
                Err(e) => Some(e) == owner_burn_err(old(self)@, caller, account, value) && final(self)@ == old(self)@,
            },
    {
        if let Err(e) = self.ensure_owner(caller) {
            return Err(e);
        }
        if self.is_paused {
            return Err(Error::EnforcedPause);
        }
        self.burn_checked(account, value)
    }

    /// Flips the pause switch on: `NotOwner` for anyone but the owner,
    /// `EnforcedPause` when already paused.
    pub fn pause(&mut self, caller: u64) -> (r: Result<(), Error>)
        requires
            old(self).wf(),
        ensures
            final(self).wf(),
            match r {
                Ok(()) => pause_err(old(self)@, caller) is None && final(self)@ == (StateV {
                    paused: true,
                    ..old(self)@
                }),
                Err(e) => Some(e) == pause_err(old(self)@, caller) && final(self)@ == old(self)@,
            },
    {
        if let Err(e) = self.ensure_owner(caller) {
            return Err(e);
        }
        if self.is_paused {
            return Err(Error::EnforcedPause);
        }
        self.is_paused = true;
        proof {
            assert(self@ =~= (StateV { paused: true, ..old(self)@ }));
        }
        Ok(())
    }

    /// Flips the pause switch off: `NotOwner` for anyone but the owner,
    /// `ExpectedPause` when not paused.
    pub fn unpause(&mut self, caller: u64) -> (r: Result<(), Error>)
        requires
            old(self).wf(),
        ensures
            final(self).wf(),
            match r {
                Ok(()) => unpause_err(old(self)@, caller) is None && final(self)@ == (StateV {
                    paused: false,
                    ..old(self)@
                }),
                Err(e) => Some(e) == unpause_err(old(self)@, caller) && final(self)@ == old(
                    self,
                )@,
            },
    {
        if let Err(e) = self.ensure_owner(caller) {
            return Err(e);
        }
        if !self.is_paused {
            return Err(Error::ExpectedPause);
        }
        self.is_paused = false;
        proof {
            assert(self@ =~= (StateV { paused: false, ..old(self)@ }));
        }
        Ok(())
    }

    /// The stored level of `account`, zero when none was ever stored. No
    /// authorization, no side effect.
    pub fn level_of(&self, account: u64) -> (r: u64)
        requires
            self.wf(),
        ensures
            r == level_of_st(self@, account),
    {
        self.levels.get(account)
    }

    /// Raises `account`'s level by one (saturating at the largest level)
    /// and, when the new level lands on a multiple of three, mints the
    /// reward on top. Owner-gated. A failing reward mint fails the whole
    /// call and leaves the level untouched.
    pub fn level_up(&mut self, caller: u64, account: u64) -> (r: Result<(), Error>)
        requires
            old(self).wf(),
            level_up_fits(old(self)@, caller, account),
        ensures
            final(self).wf(),
            match r {
                Ok(()) => level_up_err(old(self)@, caller, account) is None && final(self)@
                    == level_up_st(old(self)@, account),
                Err(e) => Some(e) == level_up_err(old(self)@, caller, account) && final(self)@
                    == old(self)@,
            },
    {
        if let Err(e) = self.ensure_owner(caller) {
            return Err(e);
        }
        let cur = self.levels.get(account);
        let new_level = if cur == u64::MAX {
            cur
        } else {
            cur + 1
        };
        if new_level % 3 == 0 {
            // The reward mint's checks come before the level write, so a
            // failing mint leaves the whole state as it was.
            if self.is_paused {
                return Err(Error::EnforcedPause);
            }
            let increased: u128 = self.supply + self.reward_amount;
            if increased > self.cap {
                return Err(Error::ExceededCap { increased_supply: increased, cap: self.cap });
            }
            if account == 0 {
                return Err(Error::InvalidReceiver { receiver: account });
            }
            self.levels.set(account, new_level);
            let b = self.balances.get(account);
            proof {
                self.balances.lemma_bal_le_total(account);
            }
            self.balances.set(account, b + self.reward_amount);
            self.supply = increased;
            proof {
                assert(self@ =~= level_up_st(old(self)@, account));
            }
            Ok(())
        } else {
            self.levels.set(account, new_level);
            proof {
                assert(self@ =~= level_up_st(old(self)@, account));
            }
            Ok(())
        }
    }

    /// Overwrites `account`'s level with `new_level` — downwards is allowed
    /// — and, when `new_level` is a positive multiple of three, mints the
    /// reward. The divisibility test looks only at the new value, so
    /// setting the same multiple of three twice mints twice. Owner-gated;
    /// a failing reward mint fails the whole call and leaves the level
    /// untouched.
    pub fn set_level(&mut self, caller: u64, account: u64, new_level: u64) -> (r: Result<
        (),
        Error,
    >)
        requires
            old(self).wf(),
            set_level_fits(old(self)@, caller, new_level),
        ensures
            final(self).wf(),
            match r {
                Ok(()) => set_level_err(old(self)@, caller, account, new_level) is None && final(self)@ == set_level_st(old(self)@, account, new_level),
                Err(e) => Some(e) == set_level_err(old(self)@, caller, account, new_level)
                    && final(self)@ == old(self)@,
            },
    {
        if let Err(e) = self.ensure_owner(caller) {
            return Err(e);
        }
        if new_level > 0 && new_level % 3 == 0 {
            // As in `level_up`: mint checks first, then the level write.
            if self.is_paused {
                return Err(Error::EnforcedPause);
            }
            let increased: u128 = self.supply + self.reward_amount;
            if increased > self.cap {
                return Err(Error::ExceededCap { increased_supply: increased, cap: self.cap });
            }
            if account == 0 {
                return Err(Error::InvalidReceiver { receiver: account });
            }
            self.levels.set(account, new_level);
            let b = self.balances.get(account);
            proof {
                self.balances.lemma_bal_le_total(account);
            }
            self.balances.set(account, b + self.reward_amount);
            self.supply = increased;
            proof {
                assert(self@ =~= set_level_st(old(self)@, account, new_level));
            }
            Ok(())
        } else {
            self.levels.set(account, new_level);
            proof {
                assert(self@ =~= set_level_st(old(self)@, account, new_level));
            }
            Ok(())
        }
    }

    /// Hands ownership to `new_owner`, unconditionally — the null account
    /// included, on purpose. Owner-gated; from the next call on, only
    /// `new_owner` counts as the owner.
    pub fn transfer_ownership(&mut self, caller: u64, new_owner: u64) -> (r: Result<(), Error>)
        requires
            old(self).wf(),
        ensures
            final(self).wf(),
            match r {
                Ok(()) => transfer_ownership_err(old(self)@, caller) is None && final(self)@
                    == (StateV { owner: new_owner, ..old(self)@ }),
                Err(e) => Some(e) == transfer_ownership_err(old(self)@, caller) && final(self)@
                    == old(self)@,
            },
    {
        if let Err(e) = self.ensure_owner(caller) {
            return Err(e);
        }
        self.owner = new_owner;
        proof {
            assert(self@ =~= (StateV { owner: new_owner, ..old(self)@ }));
        }
        Ok(())
    }

    /// The account currently holding ownership.
    pub fn owner(&self) -> (r: u64)
        ensures
            r == self@.owner,
    {
        self.owner
    }

    /// The number of tokens in circulation.
    pub fn total_supply(&self) -> (r: u128)
        ensures
            r == self@.supply,
    {
        self.supply
    }

    /// The balance of `account`, zero when it never received tokens.
    pub fn balance_of(&self, account: u64) -> (r: u128)
        requires
            self.wf(),
        ensures
            r == bal_of_st(self@, account),
    {
        self.balances.get(account)
    }

    /// Moves `value` tokens from the caller to `to`. Refused while paused,
    /// for the null sender or receiver, and when the caller's balance is
    /// short. Returns `true` on success.
    pub fn transfer(&mut self, caller: u64, to: u64, value: u128) -> (r: Result<bool, Error>)
        requires
            old(self).wf(),
        ensures
            final(self).wf(),
            match r {
                Ok(b) => b && transfer_err(old(self)@, caller, to, value) is None && final(self)@ == transfer_core_st(old(self)@, caller, to, value),
                Err(e) => Some(e) == transfer_err(old(self)@, caller, to, value) && final(self)@
                    == old(self)@,
            },
    {
        if self.is_paused {
            return Err(Error::EnforcedPause);
        }
        if let Err(e) = self.transfer_core(caller, to, value) {
            return Err(e);
        }
        Ok(true)
    }

    /// Moves `value` tokens from `from` to `to`: the balance leaves `from`
    /// first, then lands on `to`.
    fn transfer_core(&mut self, from: u64, to: u64, value: u128) -> (r: Result<(), Error>)
        requires
            old(self).wf(),
        ensures
            final(self).wf(),
            match r {
                Ok(()) => transfer_core_err(old(self)@, from, to, value) is None && final(self)@
                    == transfer_core_st(old(self)@, from, to, value),
                Err(e) => Some(e) == transfer_core_err(old(self)@, from, to, value) && final(self)@ == old(self)@,
            },
    {
        if from == 0 {
            return Err(Error::InvalidSender { sender: from });
        }
        if to == 0 {
            return Err(Error::InvalidReceiver { receiver: to });
        }
        let bf = self.balances.get(from);
        if bf < value {
            return Err(Error::InsufficientBalance { sender: from, balance: bf, needed: value });
        }
        proof {
            self.balances.lemma_bal_le_total(from);
        }
        self.balances.set(from, bf - value);
        let bt = self.balances.get(to);
        proof {
            self.balances.lemma_bal_le_total(to);
        }
        self.balances.set(to, bt + value);
        proof {
            assert(self@ =~= transfer_core_st(old(self)@, from, to, value));
        }
        Ok(())
    }

    /// The allowance `owner` has granted `spender`, zero when none was
    /// ever approved.
    pub fn allowance(&self, owner: u64, spender: u64) -> (r: u128)
        requires
            self.wf(),
        ensures
            r == allowance_of_st(self@, owner, spender),
    {
        self.allowances.get(owner, spender)
    }

    /// Grants `spender` an allowance of `value` over the caller's tokens,
    /// replacing any earlier one. Refused for the null approver or the
    /// null spender. Not gated by the pause switch. Returns `true` on
    /// success.
    pub fn approve(&mut self, caller: u64, spender: u64, value: u128) -> (r: Result<bool, Error>)
        requires
            old(self).wf(),
        ensures
            final(self).wf(),
            match r {
                Ok(b) => b && approve_err(old(self)@, caller, spender) is None && final(self)@
                    == (StateV {
                    allowances: old(self)@.allowances.insert((caller, spender), value),
                    ..old(self)@
                }),
                Err(e) => Some(e) == approve_err(old(self)@, caller, spender) && final(self)@
                    == old(self)@,
            },
    {
        if caller == 0 {
            return Err(Error::InvalidApprover { approver: caller });
        }
        if spender == 0 {
            return Err(Error::InvalidSpender { spender });
        }
        self.allowances.set(caller, spender, value);
        proof {
            assert(self@ =~= (StateV {
                allowances: old(self)@.allowances.insert((caller, spender), value),
                ..old(self)@
            }));
        }
        Ok(true)
    }

    /// Moves `value` tokens from `from` to `to` on the strength of the
    /// allowance `from` granted the caller. Checked in this order: the
    /// pause switch, the allowance, then the transfer's own checks; a
    /// finite allowance shrinks by `value`, the largest representable one
    /// counts as infinite and is untouched. Returns `true` on success.
    pub fn transfer_from(&mut self, caller: u64, from: u64, to: u64, value: u128) -> (r: Result<
        bool,
        Error,
    >)
        requires
            old(self).wf(),
        ensures
            final(self).wf(),
            match r {
                Ok(b) => b && transfer_from_err(old(self)@, caller, from, to, value) is None
                    && final(self)@ == transfer_core_st(
                    spend_st(old(self)@, from, caller, value),
                    from,
                    to,
                    value,
                ),
                Err(e) => Some(e) == transfer_from_err(old(self)@, caller, from, to, value)
                    && final(self)@ == old(self)@,
            },
    {
        if self.is_paused {
            return Err(Error::EnforcedPause);
        }
        let cur = self.allowances.get(from, caller);
        if cur != u128::MAX && cur < value {
            return Err(
                Error::InsufficientAllowance { spender: caller, allowance: cur, needed: value },
            );
        }
        // The transfer's checks come before the allowance write, so a
        // failing transfer leaves the allowance as it was.
        if from == 0 {
            return Err(Error::InvalidSender { sender: from });
        }
        if to == 0 {
            return Err(Error::InvalidReceiver { receiver: to });
        }
        let bf = self.balances.get(from);
        if bf < value {
            return Err(Error::InsufficientBalance { sender: from, balance: bf, needed: value });
        }
        if cur != u128::MAX {
            self.allowances.set(from, caller, cur - value);
        }
        self.balances.set(from, bf - value);
        let bt = self.balances.get(to);
        proof {
            self.balances.lemma_bal_le_total(to);
        }
        self.balances.set(to, bt + value);
        proof {
            assert(self@ =~= transfer_core_st(
                spend_st(old(self)@, from, caller, value),
                from,
                to,
                value,
            ));
        }
        Ok(true)
    }

    /// Burns `value` of the caller's own tokens. Refused while paused, for
    /// the null caller, and when the balance is short.
    pub fn burn(&mut self, caller: u64, value: u128) -> (r: Result<(), Error>)
        requires
            old(self).wf(),
        ensures
            final(self).wf(),
            match r {
                Ok(()) => burn_op_err(old(self)@, caller, value) is None && final(self)@
                    == burn_st(old(self)@, caller, value),
                Err(e) => Some(e) == burn_op_err(old(self)@, caller, value) && final(self)@
                    == old(self)@,
            },
    {
        if self.is_paused {
            return Err(Error::EnforcedPause);
        }
        self.burn_checked(caller, value)
    }

    /// Burns `value` tokens from `account` on the strength of the
    /// allowance `account` granted the caller. Checked in this order: the
    /// pause switch, the allowance, then the burn's own checks; a finite
    /// allowance shrinks by `value`.
    pub fn burn_from(&mut self, caller: u64, account: u64, value: u128) -> (r: Result<(), Error>)
        requires
            old(self).wf(),
        ensures
            final(self).wf(),
            match r {
                Ok(()) => burn_from_err(old(self)@, caller, account, value) is None && final(self)@ == burn_st(spend_st(old(self)@, account, caller, value), account, value),
                Err(e) => Some(e) == burn_from_err(old(self)@, caller, account, value) && final(self)@ == old(self)@,
            },
    {
        if self.is_paused {
            return Err(Error::EnforcedPause);
        }
        let cur = self.allowances.get(account, caller);
        if cur != u128::MAX && cur < value {
            return Err(
                Error::InsufficientAllowance { spender: caller, allowance: cur, needed: value },
            );
        }
        // The burn's checks come before the allowance write, so a failing
        // burn leaves the allowance as it was.
        if account == 0 {
            return Err(Error::InvalidSender { sender: account });
        }
        let b = self.balances.get(account);
        if b < value {
            return Err(
                Error::InsufficientBalance { sender: account, balance: b, needed: value },
            );
        }
        if cur != u128::MAX {
            self.allowances.set(account, caller, cur - value);
        }
        proof {
            self.balances.lemma_bal_le_total(account);
        }
        self.balances.set(account, b - value);
        self.supply = self.supply - value;
        proof {
            assert(self@ =~= burn_st(
                spend_st(old(self)@, account, caller, value),
                account,
                value,
            ));
        }
        Ok(())
    }

    /// The token's name.
    pub fn name(&self) -> (r: String)
        ensures
            r@ == self@.name,
    {
        self.token_name.clone()
    }

    /// The token's ticker symbol.
    pub fn symbol(&self) -> (r: String)
        ensures
            r@ == self@.symbol,
    {
        self.token_symbol.clone()
    }

    /// The number of decimal places, the same for every instance.
    pub fn decimals(&self) -> (r: u8)
        ensures
            r == DECIMALS,
    {
        DECIMALS
    }

    /// The number of tokens each reward mint issues, fixed at
    /// construction.
    pub fn reward_amount(&self) -> (r: u128)
        ensures
            r == self@.reward_amount,
    {
        self.reward_amount
    }

    /// The bound the total supply may never exceed.
    pub fn cap(&self) -> (r: u128)
        ensures
            r == self@.cap,
    {
        self.cap
    }

    /// Whether the pause switch is on.
    pub fn paused(&self) -> (r: bool)
        ensures
            r == self@.paused,
    {
        self.is_paused
    }

    /// Interface introspection: claims the base token interface, the
    /// metadata extension's, and introspection's own.
    pub fn supports_interface(&self, interface_id: u32) -> (r: bool)
        ensures
            r == (interface_id == ERC20_INTERFACE_ID || interface_id
                == ERC20_METADATA_INTERFACE_ID || interface_id == ERC165_INTERFACE_ID),
    {
        interface_id == ERC20_INTERFACE_ID || interface_id == ERC20_METADATA_INTERFACE_ID
            || interface_id == ERC165_INTERFACE_ID
    }
}

} // verus!

use vstd::prelude::*;

use vstd::arithmetic::div_mod::{lemma_fundamental_div_mod, lemma_mod_bound};
use vstd::arithmetic::mul::{
    lemma_mul_basics, lemma_mul_inequality, lemma_mul_is_commutative,
    lemma_mul_is_distributive_add,
};

use crate::errors::Error;
use crate::state::{
    level_of_st, level_up_err, level_up_st, mint_owner_err, owner_burn_err, pause_err, sat_inc,
    set_level_err, set_level_st, transfer_ownership_err, unpause_err, StateV,
};

verus! {

/// Every owner-gated operation refuses any caller but the stored owner
/// with `NotOwner`, whatever the rest of the state and the arguments; the
/// operations' own contracts then leave the state unchanged.
pub proof fn lemma_non_owner_rejected(
    s: StateV,
    caller: u64,
    account: u64,
    to: u64,
    value: u128,
    new_level: u64,
)
    requires
        caller != s.owner,
    ensures
        mint_owner_err(s, caller, to, value) == Some(Error::NotOwner),
        owner_burn_err(s, caller, account, value) == Some(Error::NotOwner),
        pause_err(s, caller) == Some(Error::NotOwner),
        unpause_err(s, caller) == Some(Error::NotOwner),
        level_up_err(s, caller, account) == Some(Error::NotOwner),
        set_level_err(s, caller, account, new_level) == Some(Error::NotOwner),
        transfer_ownership_err(s, caller) == Some(Error::NotOwner),
{
}

/// An account with no stored level record has level zero.
pub proof fn lemma_absent_level_is_zero(s: StateV, account: u64)
    requires
        !s.levels.contains_key(account),
    ensures
        level_of_st(s, account) == 0,
{
}

/// The state after `n` consecutive `level_up` calls for `account`.
pub open spec fn iter_level_up(s: StateV, account: u64, n: nat) -> StateV
    decreases n,
{
    if n == 0 {
        s
    } else {
        level_up_st(iter_level_up(s, account, (n - 1) as nat), account)
    }
}

/// How many of the levels 1 through `n` are multiples of three: the number
/// of reward mints a run of `n` increments from level zero triggers.
pub open spec fn mints_in_run(n: nat) -> nat
    decreases n,
{
    if n == 0 {
        0
    } else {
        mints_in_run((n - 1) as nat) + (if n % 3 == 0 {
            1nat
        } else {
            0nat
        })
    }
}

proof fn lemma_mints_in_run_monotone(m: nat, n: nat)
    requires
        m <= n,
    ensures
        mints_in_run(m) <= mints_in_run(n),
    decreases n,
{
    if m < n {
        lemma_mints_in_run_monotone(m, (n - 1) as nat);
    }
}

/// Counting up from zero, exactly every third step lands on a multiple of
/// three: `n` increments trigger `n / 3` mints.
pub proof fn lemma_mints_in_run_is_div(n: nat)
    ensures
        mints_in_run(n) == n / 3,
    decreases n,
{
    if n > 0 {
        lemma_mints_in_run_is_div((n - 1) as nat);
        lemma_fundamental_div_mod(n as int, 3);
        lemma_fundamental_div_mod(n as int - 1, 3);
        lemma_mod_bound(n as int, 3);
        lemma_mod_bound(n as int - 1, 3);
    }
}

proof fn lemma_level_up_run_aux(s: StateV, account: u64, n: nat)
    requires
        level_of_st(s, account) == 0,
        account != 0,
        !s.paused,
        n <= u64::MAX,
        s.supply + s.reward_amount * (mints_in_run(n) as int) <= s.cap,
    ensures
        forall|k: nat|
            k < n ==> level_up_err(
                #[trigger] iter_level_up(s, account, k),
                s.owner,
                account,
            ) is None,
        level_of_st(iter_level_up(s, account, n), account) == n,
        iter_level_up(s, account, n).supply == s.supply + s.reward_amount * (mints_in_run(
            n,
        ) as int),
        iter_level_up(s, account, n).owner == s.owner,
        iter_level_up(s, account, n).paused == s.paused,
        iter_level_up(s, account, n).reward_amount == s.reward_amount,
        iter_level_up(s, account, n).cap == s.cap,
    decreases n,
{
    if n > 0 {
        let m = (n - 1) as nat;
        let r = s.reward_amount as int;
        lemma_mints_in_run_monotone(m, n);
        lemma_mul_inequality(mints_in_run(m) as int, mints_in_run(n) as int, r);
        lemma_mul_is_commutative(r, mints_in_run(m) as int);
        lemma_mul_is_commutative(r, mints_in_run(n) as int);
        lemma_level_up_run_aux(s, account, m);
        let sm = iter_level_up(s, account, m);
        assert(sat_inc(level_of_st(sm, account)) == n);
        if n % 3 == 0 {
            lemma_mul_is_distributive_add(r, mints_in_run(m) as int, 1);
            assert(level_up_err(sm, s.owner, account) is None);
        } else {
            assert(level_up_err(sm, s.owner, account) is None);
        }
        assert forall|k: nat|
            k < n implies level_up_err(
            #[trigger] iter_level_up(s, account, k),
            s.owner,
            account,
        ) is None by {
            if k == m {
                assert(level_up_err(iter_level_up(s, account, m), s.owner, account) is None);
            }
        }
    } else {
        lemma_mul_basics(s.reward_amount as int);
    }
}

/// A run of `n` consecutive `level_up` calls by the owner, for an account
/// that starts with no level record, while unpaused and with room under
/// the cap for `n / 3` rewards: every call succeeds, the account's level
/// ends at exactly `n`, and the supply grows by exactly `n / 3` rewards of
/// the configured amount — one per multiple of three the level crosses.
pub proof fn lemma_level_up_run(s: StateV, account: u64, n: nat)
    requires
        level_of_st(s, account) == 0,
        account != 0,
        !s.paused,
        n <= u64::MAX,
        s.supply + s.reward_amount * ((n / 3) as int) <= s.cap,
    ensures
        forall|k: nat|
            k < n ==> level_up_err(
                #[trigger] iter_level_up(s, account, k),
                s.owner,
                account,
            ) is None,
        level_of_st(iter_level_up(s, account, n), account) == n,
        iter_level_up(s, account, n).supply == s.supply + s.reward_amount * ((n / 3) as int),
{
    lemma_mints_in_run_is_div(n);
    lemma_level_up_run_aux(s, account, n);
}

/// Setting the same positive multiple of three twice mints twice: the
/// divisibility test reads only the value being stored, never the stored
/// one, so the second set is not absorbed by the first.
pub proof fn lemma_set_level_reward_repeats(s: StateV, caller: u64, account: u64, new_level: u64)
    requires
        caller == s.owner,
        !s.paused,
        account != 0,
        new_level > 0,
        new_level % 3 == 0,
        s.supply + 2 * s.reward_amount <= s.cap,
    ensures
        set_level_err(s, caller, account, new_level) is None,
        set_level_err(set_level_st(s, account, new_level), caller, account, new_level) is None,
        set_level_st(set_level_st(s, account, new_level), account, new_level).supply == s.supply
            + 2 * s.reward_amount,
{
}

/// Setting a level to zero neither fails nor mints: the supply and the
/// balances stay exactly as they were.
pub proof fn lemma_set_level_zero_never_mints(s: StateV, caller: u64, account: u64)
    requires
        caller == s.owner,
    ensures
        set_level_err(s, caller, account, 0) is None,
        set_level_st(s, account, 0).supply == s.supply,
        set_level_st(s, account, 0).balances == s.balances,
{
}

/// A reward mint that would push the supply over the cap fails the whole
/// leveling call with `ExceededCap`; the operations' own contracts then
/// leave the level — and everything else — unchanged.
pub proof fn lemma_cap_blocks_reward(s: StateV, caller: u64, account: u64, new_level: u64)
    requires
        caller == s.owner,
        !s.paused,
        s.supply + s.reward_amount > s.cap,
    ensures
        sat_inc(level_of_st(s, account)) % 3 == 0 ==> level_up_err(s, caller, account) == Some(
            (Error::ExceededCap {
                increased_supply: (s.supply + s.reward_amount) as u128,
                cap: s.cap,
            }),
        ),
        new_level > 0 && new_level % 3 == 0 ==> set_level_err(s, caller, account, new_level)
            == Some(
            (Error::ExceededCap {
                increased_supply: (s.supply + s.reward_amount) as u128,
                cap: s.cap,
            }),
        ),
{
}

/// Ownership transfer by the current owner succeeds, installs the new
/// owner, and immediately turns the old owner away from every gated
/// operation with `NotOwner`.
pub proof fn lemma_ownership_transfer_revokes(
    s: StateV,
    new_owner: u64,
    account: u64,
    to: u64,
    value: u128,
    new_level: u64,
)
    requires
        new_owner != s.owner,
    ensures
        transfer_ownership_err(s, s.owner) is None,
        (StateV { owner: new_owner, ..s }).owner == new_owner,
        mint_owner_err((StateV { owner: new_owner, ..s }), s.owner, to, value) == Some(
            Error::NotOwner,
        ),
        owner_burn_err((StateV { owner: new_owner, ..s }), s.owner, account, value) == Some(
            Error::NotOwner,
        ),
        pause_err((StateV { owner: new_owner, ..s }), s.owner) == Some(Error::NotOwner),
        unpause_err((StateV { owner: new_owner, ..s }), s.owner) == Some(Error::NotOwner),
        level_up_err((StateV { owner: new_owner, ..s }), s.owner, account) == Some(
            Error::NotOwner,
        ),
        set_level_err((StateV { owner: new_owner, ..s }), s.owner, account, new_level) == Some(
            Error::NotOwner,
        ),
        transfer_ownership_err((StateV { owner: new_owner, ..s }), s.owner) == Some(
            Error::NotOwner,
        ),
{
    lemma_non_owner_rejected(
        (StateV { owner: new_owner, ..s }),
        s.owner,
        account,
        to,
        value,
        new_level,
    );
}

} // verus!

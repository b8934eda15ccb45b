use vstd::prelude::*;

verus! {

/// The failure conditions a contract call can surface. Each operation's
/// contract states exactly which variant comes back on which inputs; a call
/// that returns one of these leaves the contract state unchanged.
#[derive(Clone, Copy, Debug, PartialEq, Eq, Structural)]
pub enum Error {
    /// The caller of an owner-gated operation is not the stored owner.
    NotOwner,
    /// A mint would have raised the total supply above the cap; carries the
    /// supply the mint would have produced and the cap it ran into.
    ExceededCap { increased_supply: u128, cap: u128 },
    /// The cap handed to the constructor is invalid (zero).
    InvalidCap { cap: u128 },
    /// A transfer or burn asked for more than the source account holds.
    InsufficientBalance { sender: u64, balance: u128, needed: u128 },
    /// A delegated transfer or burn asked for more than the spender's
    /// allowance.
    InsufficientAllowance { spender: u64, allowance: u128, needed: u128 },
    /// The zero account cannot send tokens.
    InvalidSender { sender: u64 },
    /// The zero account cannot receive tokens.
    InvalidReceiver { receiver: u64 },
    /// The zero account cannot be approved as a spender.
    InvalidSpender { spender: u64 },
    /// The zero account cannot grant an allowance.
    InvalidApprover { approver: u64 },
    /// The operation requires the token not to be paused.
    EnforcedPause,
    /// The operation requires the token to be paused.
    ExpectedPause,
}

} // verus!

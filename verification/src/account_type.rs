use vstd::prelude::*;

verus! {

/// Final classification of who controls an address.
#[derive(Clone, Copy, Debug, PartialEq, Eq, Structural)]
pub enum AccountType {
    /// Smart contract
    Contract,
    /// N-of-M multisig account: the first number is how many of the heaviest
    /// signers must sign, the second how many signers carry any weight at all
    Multisig(u8, u8),
    /// Account with no active signers, or whose signers can never reach the
    /// threshold
    Deactivated,
    /// Hot wallet: a single signer alone can authorize a transaction
    HotWallet,
    /// Wallet whose signing is mediated by an external, human-paced process
    MPC,
}

} // verus!

use vstd::prelude::*;

verus! {

/// Every way an operation on a pool can fail.
///
/// An operation that fails leaves all balances as they were.
#[derive(Clone, Copy, Debug, PartialEq, Eq, Structural)]
pub enum LpErrors {
    /// A withdrawal was asked of a pool whose share token has no supply.
    NoLiquidityFound,
    /// A swap would pay out less than the caller's minimum.
    SlippageExceeded,
    /// Reserved for stricter deposit validation; no operation returns it.
    InvalidLiquidityRatio,
    /// Reserved for stricter deposit validation; no operation returns it.
    BothTokensRequired,
    /// Reserved for stricter deposit validation; no operation returns it.
    NoTokensProvided,
    /// Reserved for stricter deposit validation; no operation returns it.
    InsufficientTokenA,
    /// Reserved for stricter deposit validation; no operation returns it.
    InsufficientTokenB,
    /// Reserved for stricter deposit validation; no operation returns it.
    InsufficientLiquidity,
    /// A reserve is empty where the pricing rule would divide by it.
    EmptyPool,
    /// The caller's input cannot be served: an asset that is neither of the
    /// pool's two, a first deposit that lacks one of the assets, fee rates
    /// above 100%, a pool of one asset with itself, or a pool at another
    /// address than its pair of assets gives.
    InvalidInput,
    /// An account holds less than must be taken from it.
    InsufficientFunds,
    /// A result or a balance does not fit in 64 bits.
    MathOverflow,
    /// The record to be created is already there.
    PoolAlreadyExists,
}

impl LpErrors {
    /// The message shown for this error.
    pub fn message(&self) -> (text: &'static str)
        ensures
            text@ == self.spec_message()@,
    {
        match self {
            LpErrors::NoLiquidityFound => "No Liquidity Found",
            LpErrors::SlippageExceeded => "Slippage exceeded",
            LpErrors::InvalidLiquidityRatio => "Invalid Liquidity Ratio",
            LpErrors::BothTokensRequired => "Both tokens must be provided for initial liquidity",
            LpErrors::NoTokensProvided => "At least one token must be provided",
            LpErrors::InsufficientTokenA => "Insufficient Token A provided",
            LpErrors::InsufficientTokenB => "Insufficient Token B provided",
            LpErrors::InsufficientLiquidity => "Insufficient liquidity",
            LpErrors::EmptyPool => "No Tokens in the pool",
            LpErrors::InvalidInput => "Invalid input",
            LpErrors::InsufficientFunds => "Insufficient funds",
            LpErrors::MathOverflow => "Arithmetic overflow",
            LpErrors::PoolAlreadyExists => "Pool already exists",
        }
    }

    /// What [`LpErrors::message`] returns.
    pub open spec fn spec_message(&self) -> &'static str {
        match self {
            LpErrors::NoLiquidityFound => "No Liquidity Found",
            LpErrors::SlippageExceeded => "Slippage exceeded",
            LpErrors::InvalidLiquidityRatio => "Invalid Liquidity Ratio",
            LpErrors::BothTokensRequired => "Both tokens must be provided for initial liquidity",
            LpErrors::NoTokensProvided => "At least one token must be provided",
            LpErrors::InsufficientTokenA => "Insufficient Token A provided",
            LpErrors::InsufficientTokenB => "Insufficient Token B provided",
            LpErrors::InsufficientLiquidity => "Insufficient liquidity",
            LpErrors::EmptyPool => "No Tokens in the pool",
            LpErrors::InvalidInput => "Invalid input",
            LpErrors::InsufficientFunds => "Insufficient funds",
            LpErrors::MathOverflow => "Arithmetic overflow",
            LpErrors::PoolAlreadyExists => "Pool already exists",
        }
    }
}

} // verus!

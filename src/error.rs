//! Errors of the pool program's arithmetic and bookkeeping.
use vstd::prelude::*;

verus! {

/// Why a computation failed.
#[derive(Clone, Copy, Debug, PartialEq, Eq, Structural)]
pub enum ErrorCode {
    LOK,
    NumberCastError,
    ZeroMintAmount,
    IntegerDowncastOverflow,
    MultiplicationOverflow,
    DivisorIsZero,
    TokenAmountMinSubceeded,
    TokenAmountMaxExceeded,
    SqrtPriceOutOfBounds,
    ProtocolFeeRateIllegal,
    FeeRateIllegal,
    TokenMintPairIllgal,
    TickArrayStartIndexIllegal,
    InvalidTickSpacing,
    InvalidTickIndex,
    InvalidTickArrayAccount,
    PositionIsNotEmpty,
    InvalidTokenAccountOwner,
    TickNotFound,
    TickNotInArray,
    InvalidTokenAccount,
    InvalidMint,
    InvalidAuthority,
    PositionAndClmmpoolNotMatch,
    PositionIllegal,
    InvalidDeltaLiquidity,
    ConfigAndPoolNotMatch,
    WrongSqrtPriceLimit,
    TickArrayNotFound,
    InvalidTickArrayIndex,
    NextTickNotFound,
    FeeGrowthIllegal,
    LiquidityOverflow,
    LiquidityUnderflow,
    RemainerAmountUnderflow,
    SwapAmountInOverflow,
    SwapAmountOutOverflow,
    SwapFeeAmountOverflow,
    InvalidTime,
    AmountInAboveMaximumLimit,
    AmountOutBelowMaximumLimit,
    InvalidAmountInput,
    InvalidFixedTokenType,
}

} // verus!

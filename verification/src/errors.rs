//! Error kinds of the simulator and of the ingestion pipeline.

use vstd::prelude::*;
use crate::primitives::B256;

verus! {

/// Why a swap simulation or a fixed-point conversion failed.
#[derive(Debug, Clone, Copy, PartialEq, Eq, Structural)]
pub enum SwapSimulationError {
    /// A tick lies outside the supported range, or no further tick exists.
    InvalidTick,
    /// The fixed-point arithmetic rejected its operands.
    UniswapV3MathError,
    /// A change would drop liquidity, or a token delta, below zero.
    LiquidityUnderflow,
    /// The price limit lies on the wrong side of the current price.
    InvalidSqrtPriceLimit,
    /// The amount to swap is zero.
    ZeroAmountSpecified,
}

/// Errors surfaced to the embedding program.
#[derive(Debug, Clone)]
pub enum PoolError {
    /// A log matched the filter but does not decode as the expected event.
    InvalidEventSignature(Vec<B256>),
    SwapSimulationFailed,
    PoolAlreadyInitialized,
    PoolNotInitialized,
    SwapSimulationError(SwapSimulationError),
}

/// Errors of the chain-update provider.
#[derive(Debug, Clone)]
pub enum PoolUpdateError {
    /// Transport or RPC failure.
    Provider(String),
    /// A log could not be decoded.
    EventDecode(String),
    /// A failure inside the reorg handler.
    ReorgHandling(String),
}

/// Errors of the pool-manager service.
#[derive(Debug, Clone)]
pub enum PoolManagerServiceError {
    Provider(String),
    PoolInit(String),
    PoolFactory(String),
    BaselineFactory(String),
}

/// A value that does not fit the narrower type it is meant for.
#[derive(Debug, Clone, Copy, PartialEq, Eq, Structural)]
pub enum ConversionError {
    /// A tick or tick spacing that does not fit in 24 bits.
    OverflowErrorI24(i32),
    /// A liquidity delta that does not fit in 128 bits.
    OverflowErrorI28(crate::u256::I256),
}

/// A signed 128-bit number as a signed 256-bit number.
pub fn i128_to_i256(value: i128) -> (r: crate::u256::I256)
    ensures
        r@ == value,
{
    crate::u256::I256::from_i128(value)
}

/// A signed 256-bit number as a signed 128-bit number, where it fits.
pub fn i256_to_i128(value: crate::u256::I256) -> (r: Result<i128, ConversionError>)
    ensures
        match r {
            Ok(v) => v == value@,
            Err(e) => e == ConversionError::OverflowErrorI28(value) && !(i128::MIN <= value@
                <= i128::MAX),
        },
{
    match value.to_i128() {
        Some(v) => Ok(v),
        None => Err(ConversionError::OverflowErrorI28(value)),
    }
}

/// A tick or tick spacing as a signed 24-bit number, where it fits.
pub fn i32_to_i24(value: i32) -> (r: Result<i32, ConversionError>)
    ensures
        match r {
            Ok(v) => v == value && -0x80_0000 <= value < 0x80_0000,
            Err(e) => e == ConversionError::OverflowErrorI24(value) && !(-0x80_0000 <= value
                < 0x80_0000),
        },
{
    if value < -0x80_0000 || value >= 0x80_0000 {
        Err(ConversionError::OverflowErrorI24(value))
    } else {
        Ok(value)
    }
}

} // verus!

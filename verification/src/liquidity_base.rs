//! The liquidity map of a pool: its table of initialized ticks, the
//! word-packed bitmap that indexes them, and the liquidity in range at the
//! current tick.

use std::collections::HashMap;
use vstd::prelude::*;
use vstd::arithmetic::div_mod::lemma_fundamental_div_mod_converse;
use vstd::arithmetic::div_mod::lemma_fundamental_div_mod;
use crate::errors::SwapSimulationError;
use crate::math::{MAX_TICK, MIN_TICK, tick_in_range};
use crate::tick_info::TickInfo;
use crate::u256::U256;

verus! {

broadcast use vstd::std_specs::hash::group_hash_axioms;

/// A square-root price in Q64.96.
pub type SqrtPriceX96 = U256;

/// Quotient of `a` by a positive `s`, rounded towards negative infinity.
pub fn floor_div(a: i32, s: i32) -> (q: i32)
    requires
        s > 0,
    ensures
        q == (a as int) / (s as int),
        (q as int) * (s as int) <= (a as int) < (q as int + 1) * (s as int),
{
    if a >= 0 {
        let q: u32 = (a as u32) / (s as u32);
        proof {
            lemma_fundamental_div_mod(a as int, s as int);
            assert(q as int * s as int <= (a as int) < (q as int + 1) * (s as int))
                by (nonlinear_arith)
                requires
                    a as int == (s as int) * (q as int) + (a as int) % (s as int),
                    0 <= (a as int) % (s as int) < (s as int),
            ;
        }
        q as i32
    } else {
        let m: u32 = (-(a as i64) - 1) as u32;
        let k: u32 = m / (s as u32);
        let q: i32 = (-(k as i64) - 1) as i32;
        proof {
            let r: int = (m as int) % (s as int);
            lemma_fundamental_div_mod(m as int, s as int);
            assert(a as int == (q as int) * (s as int) + (s as int - 1 - r)) by (nonlinear_arith)
                requires
                    m as int == (s as int) * (k as int) + r,
                    a as int == -(m as int) - 1,
                    q as int == -(k as int) - 1,
            ;
            lemma_fundamental_div_mod_converse(a as int, s as int, q as int, s as int - 1 - r);
            assert(q as int * s as int <= (a as int) < (q as int + 1) * (s as int))
                by (nonlinear_arith)
                requires
                    a as int == (q as int) * (s as int) + (s as int - 1 - r),
                    0 <= r < (s as int),
            ;
        }
        q
    }
}

/// True when `tick` is a multiple of a positive `spacing`.
pub fn is_usable(tick: i32, spacing: i32) -> (r: bool)
    requires
        spacing > 0,
    ensures
        r == ((tick as int) % (spacing as int) == 0),
{
    let q: i32 = floor_div(tick, spacing);
    proof {
        lemma_fundamental_div_mod(tick as int, spacing as int);
        assert(((q as int) * (spacing as int) == tick as int) == ((tick as int) % (spacing as int)
            == 0)) by (nonlinear_arith)
            requires
                tick as int == (spacing as int) * (q as int) + (tick as int) % (spacing as int),
        ;
        assert(-0x8000_0000_0000_0000 <= (q as int) * (spacing as int) <= 0x7fff_ffff_ffff_ffff)
            by (nonlinear_arith)
            requires
                -0x8000_0000 <= q as int <= 0x7fff_ffff,
                0 < spacing as int <= 0x7fff_ffff,
        ;
    }
    (q as i64) * (spacing as i64) == tick as i64
}

/// What adding a signed delta to an unsigned amount of liquidity gives.
pub open spec fn spec_add_delta(liquidity: nat, delta: int) -> Result<nat, SwapSimulationError> {
    if liquidity + delta < 0 {
        Err(SwapSimulationError::LiquidityUnderflow)
    } else if liquidity + delta > u128::MAX {
        Err(SwapSimulationError::UniswapV3MathError)
    } else {
        Ok((liquidity + delta) as nat)
    }
}

/// Adds a signed delta to an amount of liquidity: `LiquidityUnderflow` where
/// the result would be negative, the arithmetic error where it exceeds 128 bits.
pub fn add_delta(liquidity: u128, delta: i128) -> (r: Result<u128, SwapSimulationError>)
    ensures
        match r {
            Ok(v) => spec_add_delta(liquidity as nat, delta as int) == Ok::<
                nat,
                SwapSimulationError,
            >(v as nat),
            Err(e) => spec_add_delta(liquidity as nat, delta as int) == Err::<
                nat,
                SwapSimulationError,
            >(e),
        },
{
    if delta >= 0 {
        match liquidity.checked_add(delta as u128) {
            Some(v) => Ok(v),
            None => Err(SwapSimulationError::UniswapV3MathError),
        }
    } else {
        let magnitude: u128 = if delta == i128::MIN {
            0x8000_0000_0000_0000_0000_0000_0000_0000u128
        } else {
            (-delta) as u128
        };
        if liquidity < magnitude {
            Err(SwapSimulationError::LiquidityUnderflow)
        } else {
            Ok(liquidity - magnitude)
        }
    }
}

/// The liquidity map as mathematics: the state at the current tick, the
/// initialized ticks with their gross and net liquidity, and the compressed
/// ticks whose bit is set in the bitmap.
pub struct LiquidityModel {
    pub tick_spacing: int,
    pub tick: int,
    pub sqrt_price: nat,
    pub liquidity: nat,
    pub ticks: Map<int, (nat, int)>,
    pub bits: Set<int>,
}

/// A tick table with the record of tick `t` replaced, or removed where the new
/// record carries no liquidity.
pub open spec fn put_tick(ticks: Map<int, (nat, int)>, t: int, record: (nat, int)) -> Map<
    int,
    (nat, int),
> {
    if record.0 > 0 {
        ticks.insert(t, record)
    } else {
        ticks.remove(t)
    }
}

/// A set of bits with bit `c` set or cleared.
pub open spec fn put_bit(bits: Set<int>, c: int, value: bool) -> Set<int> {
    if value {
        bits.insert(c)
    } else {
        bits.remove(c)
    }
}

impl LiquidityModel {
    /// Gross liquidity at tick `t`: zero where the tick is not initialized.
    pub open spec fn gross(self, t: int) -> nat {
        if self.ticks.contains_key(t) {
            self.ticks[t].0
        } else {
            0
        }
    }

    /// Net liquidity at tick `t`: zero where the tick is not initialized.
    pub open spec fn net(self, t: int) -> int {
        if self.ticks.contains_key(t) {
            self.ticks[t].1
        } else {
            0
        }
    }

    /// Sum of the net liquidity of the initialized ticks from `MIN_TICK` up to
    /// and including `t`.
    pub open spec fn net_sum_upto(self, t: int) -> int
        decreases t - MIN_TICK + 1,
    {
        if t < MIN_TICK {
            0
        } else {
            self.net_sum_upto(t - 1) + self.net(t)
        }
    }

    /// Sum of the net liquidity of all initialized ticks of the supported range.
    pub open spec fn net_sum(self) -> int {
        self.net_sum_upto(MAX_TICK as int)
    }

    /// Conservation: what the ticks add going up, they take back further up.
    pub open spec fn conserved(self) -> bool {
        self.net_sum() == 0
    }

    /// The liquidity in range is what the ticks at or below the current tick
    /// have added.
    pub open spec fn liquidity_matches(self) -> bool {
        self.liquidity as int == self.net_sum_upto(self.tick)
    }

    /// Every number of the map fits the machine type that holds it.
    pub open spec fn bounded(self) -> bool {
        &&& self.liquidity <= u128::MAX
        &&& forall|t: int| #[trigger]
            self.ticks.contains_key(t) ==> self.ticks[t].0 <= u128::MAX && i128::MIN
                <= self.ticks[t].1 <= i128::MAX
    }

    /// The tick table and the bitmap agree: every initialized tick is usable,
    /// in range, carries liquidity and has its bit set, and every set bit of a
    /// tick in range belongs to an initialized tick.
    pub open spec fn consistent(self) -> bool {
        &&& self.tick_spacing > 0
        &&& forall|t: int| #[trigger]
            self.ticks.contains_key(t) ==> {
                &&& tick_in_range(t)
                &&& t % self.tick_spacing == 0
                &&& self.ticks[t].0 > 0
                &&& self.bits.contains(t / self.tick_spacing)
            }
        &&& forall|c: int| #[trigger]
            self.bits.contains(c) && tick_in_range(c * self.tick_spacing)
                ==> self.ticks.contains_key(c * self.tick_spacing)
    }

    /// What the record of tick `t` becomes when `delta` is added to the
    /// positions that start (`upper` false) or end (`upper` true) there: the new
    /// gross and net liquidity, or the reason why the change cannot be made.
    pub open spec fn tick_after(self, t: int, delta: int, upper: bool) -> Result<
        (nat, int),
        SwapSimulationError,
    > {
        let gross = self.gross(t) + delta;
        let net = if upper {
            self.net(t) - delta
        } else {
            self.net(t) + delta
        };
        if gross < 0 {
            Err(SwapSimulationError::LiquidityUnderflow)
        } else if gross > u128::MAX || net < i128::MIN || net > i128::MAX {
            Err(SwapSimulationError::UniswapV3MathError)
        } else if gross == 0 && net != 0 {
            Err(SwapSimulationError::LiquidityUnderflow)
        } else {
            Ok((gross as nat, net))
        }
    }

    /// True for the tick ranges that a position of this pool can have.
    pub open spec fn valid_range(self, lower: int, upper: int) -> bool {
        &&& self.tick_spacing > 0
        &&& MIN_TICK <= lower < upper <= MAX_TICK
        &&& lower % self.tick_spacing == 0
        &&& upper % self.tick_spacing == 0
    }

    /// Why a liquidity change cannot be applied, or `None` where it can:
    /// `InvalidTick` for a range that no position can have, and otherwise the
    /// first failure among the lower tick, the upper tick and the liquidity in
    /// range.
    pub open spec fn update_error(self, lower: int, upper: int, delta: int) -> Option<
        SwapSimulationError,
    > {
        if !self.valid_range(lower, upper) {
            Some(SwapSimulationError::InvalidTick)
        } else if self.tick_after(lower, delta, false) is Err {
            Some(self.tick_after(lower, delta, false)->Err_0)
        } else if self.tick_after(upper, delta, true) is Err {
            Some(self.tick_after(upper, delta, true)->Err_0)
        } else if lower <= self.tick < upper && spec_add_delta(self.liquidity, delta) is Err {
            Some(spec_add_delta(self.liquidity, delta)->Err_0)
        } else {
            None
        }
    }

    /// The map with `delta` added to the range `[lower, upper)`: to the net
    /// liquidity of the lower tick, from that of the upper tick, to the gross
    /// liquidity of both, and to the liquidity in range where the current tick
    /// lies in the range. Where the change cannot be applied the map stays as
    /// it is.
    pub open spec fn update(self, lower: int, upper: int, delta: int) -> LiquidityModel {
        if self.update_error(lower, upper, delta) is Some {
            self
        } else {
            let low = self.tick_after(lower, delta, false)->Ok_0;
            let up = self.tick_after(upper, delta, true)->Ok_0;
            LiquidityModel {
                tick_spacing: self.tick_spacing,
                tick: self.tick,
                sqrt_price: self.sqrt_price,
                liquidity: if lower <= self.tick < upper {
                    (self.liquidity + delta) as nat
                } else {
                    self.liquidity
                },
                ticks: put_tick(put_tick(self.ticks, lower, low), upper, up),
                bits: put_bit(
                    put_bit(self.bits, lower / self.tick_spacing, low.0 > 0),
                    upper / self.tick_spacing,
                    up.0 > 0,
                ),
            }
        }
    }

    /// The map with the record of one tick replaced by a loaded record: the
    /// tick is initialized afterwards exactly if the record says so.
    pub open spec fn with_tick(self, t: i32, info: TickInfo) -> LiquidityModel {
        LiquidityModel {
            ticks: if info.initialized {
                self.ticks.insert(t as int, (info.liquidity_gross as nat, info.liquidity_net as int))
            } else {
                self.ticks.remove(t as int)
            },
            ..self
        }
    }

    /// The map with one word of the bitmap replaced by a loaded word.
    pub open spec fn with_word(self, w: i16, word: U256) -> LiquidityModel {
        LiquidityModel {
            bits: Set::new(
                |c: int|
                    if c / 256 == w as int {
                        word.bit(c % 256)
                    } else {
                        self.bits.contains(c)
                    },
            ),
            ..self
        }
    }

    /// The map with a list of loaded tick records merged in, in order.
    pub open spec fn with_ticks(self, ticks: Seq<(i32, TickInfo)>) -> LiquidityModel
        decreases ticks.len(),
    {
        if ticks.len() == 0 {
            self
        } else {
            self.with_ticks(ticks.drop_last()).with_tick(ticks.last().0, ticks.last().1)
        }
    }

    /// The map with a list of loaded bitmap words merged in, in order.
    pub open spec fn with_words(self, words: Seq<(i16, U256)>) -> LiquidityModel
        decreases words.len(),
    {
        if words.len() == 0 {
            self
        } else {
            self.with_words(words.drop_last()).with_word(words.last().0, words.last().1)
        }
    }

    /// The map with freshly loaded tick data merged in: each record and each
    /// word replaces what the map held for its tick or its word.
    pub open spec fn extended(self, ticks: Seq<(i32, TickInfo)>, words: Seq<(i16, U256)>) -> LiquidityModel {
        self.with_ticks(ticks).with_words(words)
    }

    /// The map with the state at the current tick replaced.
    pub open spec fn with_slot0(self, tick: int, sqrt_price: nat, liquidity: nat) -> LiquidityModel {
        LiquidityModel { tick, sqrt_price, liquidity, ..self }
    }

    /// True when `t` is an initialized usable tick of the supported range
    /// according to the bitmap.
    pub open spec fn marked(self, t: int) -> bool {
        &&& self.tick_spacing > 0
        &&& tick_in_range(t)
        &&& t % self.tick_spacing == 0
        &&& self.bits.contains(t / self.tick_spacing)
    }

    /// The greatest marked tick at or below `t`.
    pub open spec fn next_down(self, t: int) -> Option<int>
        decreases t - MIN_TICK + 1,
    {
        if t < MIN_TICK {
            None
        } else if self.marked(t) {
            Some(t)
        } else {
            self.next_down(t - 1)
        }
    }

    /// The least marked tick at or above `t`.
    pub open spec fn next_up(self, t: int) -> Option<int>
        decreases MAX_TICK - t + 1,
    {
        if t > MAX_TICK {
            None
        } else if self.marked(t) {
            Some(t)
        } else {
            self.next_up(t + 1)
        }
    }

    /// The next initialized tick from `current`: downwards (`lte`) the greatest
    /// marked tick at or below it, upwards the least marked tick above it.
    pub open spec fn next_tick(self, current: int, lte: bool) -> Option<int> {
        if lte {
            self.next_down(
                if current > MAX_TICK {
                    MAX_TICK as int
                } else {
                    current
                },
            )
        } else {
            self.next_up(
                if current < MIN_TICK {
                    MIN_TICK as int
                } else {
                    current + 1
                },
            )
        }
    }

    /// True when `r` is the answer to "which is the next initialized tick":
    /// searching downwards (`lte`), the greatest marked tick at or below
    /// `current`; searching upwards, the least marked tick above `current`;
    /// `None` exactly where there is no such tick.
    pub open spec fn is_next_tick(self, current: int, lte: bool, r: Option<int>) -> bool {
        match r {
            Some(t) => {
                &&& self.marked(t)
                &&& if lte {
                    t <= current
                } else {
                    t > current
                }
                &&& forall|x: int| #[trigger]
                    self.marked(x) && (if lte {
                        x <= current
                    } else {
                        x > current
                    }) ==> (if lte {
                        x <= t
                    } else {
                        x >= t
                    })
            },
            None => forall|x: int| #[trigger]
                self.marked(x) ==> (if lte {
                    x > current
                } else {
                    x <= current
                }),
        }
    }
}

/// A map with the entries of a list inserted in order, later entries
/// replacing earlier ones and what the map held.
pub open spec fn inserted_all<K, V>(m: Map<K, V>, entries: Seq<(K, V)>) -> Map<K, V>
    decreases entries.len(),
{
    if entries.len() == 0 {
        m
    } else {
        inserted_all(m, entries.drop_last()).insert(entries.last().0, entries.last().1)
    }
}

/// Takes a signed delta off an amount of liquidity: `LiquidityUnderflow`
/// where the result would be negative, the arithmetic error where it exceeds
/// 128 bits.
pub fn sub_delta(liquidity: u128, delta: i128) -> (r: Result<u128, SwapSimulationError>)
    ensures
        match r {
            Ok(v) => spec_add_delta(liquidity as nat, -(delta as int)) == Ok::<
                nat,
                SwapSimulationError,
            >(v as nat),
            Err(e) => spec_add_delta(liquidity as nat, -(delta as int)) == Err::<
                nat,
                SwapSimulationError,
            >(e),
        },
{
    if delta >= 0 {
        if liquidity < delta as u128 {
            Err(SwapSimulationError::LiquidityUnderflow)
        } else {
            Ok(liquidity - delta as u128)
        }
    } else {
        let magnitude: u128 = if delta == i128::MIN {
            0x8000_0000_0000_0000_0000_0000_0000_0000u128
        } else {
            (-delta) as u128
        };
        match liquidity.checked_add(magnitude) {
            Some(v) => Ok(v),
            None => Err(SwapSimulationError::UniswapV3MathError),
        }
    }
}

/// The state of a pool at one point of the price curve.
#[derive(Clone, Copy, Debug, PartialEq, Eq, Structural)]
pub struct LiquidityAtPoint {
    pub tick_spacing: i32,
    pub current_tick: i32,
    pub current_sqrt_price: SqrtPriceX96,
    pub current_liquidity: u128,
}

/// The tick table, the tick bitmap and the state at the current tick.
#[derive(Clone, Debug)]
pub struct BaselineLiquidity {
    /// Stride of the usable ticks.
    pub tick_spacing: i32,
    /// The current tick.
    pub start_tick: i32,
    /// The current square-root price.
    pub start_sqrt_price: SqrtPriceX96,
    /// Liquidity in range at the current tick.
    pub start_liquidity: u128,
    /// Record of each tick that bounds a position.
    pub initialized_ticks: HashMap<i32, TickInfo>,
    /// One bit per usable tick, 256 to a word, set for the initialized ones.
    pub tick_bitmap: HashMap<i16, U256>,
}

impl View for BaselineLiquidity {
    type V = LiquidityModel;

    open spec fn view(&self) -> LiquidityModel {
        LiquidityModel {
            tick_spacing: self.tick_spacing as int,
            tick: self.start_tick as int,
            sqrt_price: self.start_sqrt_price@,
            liquidity: self.start_liquidity as nat,
            ticks: Map::new(|t: int| self.initialized(t), |t: int| (self.gross(t), self.net(t))),
            bits: Set::new(|c: int| self.bit(c)),
        }
    }
}

impl BaselineLiquidity {
    /// True when the table holds an initialized record for tick `t`.
    pub open spec fn initialized(&self, t: int) -> bool {
        &&& i32::MIN <= t <= i32::MAX
        &&& self.initialized_ticks@.contains_key(t as i32)
        &&& self.initialized_ticks@[t as i32].initialized
    }

    /// Gross liquidity at tick `t`: zero where the tick is not initialized.
    pub open spec fn gross(&self, t: int) -> nat {
        if self.initialized(t) {
            self.initialized_ticks@[t as i32].liquidity_gross as nat
        } else {
            0
        }
    }

    /// Net liquidity at tick `t`: zero where the tick is not initialized.
    pub open spec fn net(&self, t: int) -> int {
        if self.initialized(t) {
            self.initialized_ticks@[t as i32].liquidity_net as int
        } else {
            0
        }
    }

    /// True when the bitmap has the bit of compressed tick `c` set: bit
    /// `c mod 256` of word `c div 256`.
    pub open spec fn bit(&self, c: int) -> bool {
        &&& i16::MIN <= c / 256 <= i16::MAX
        &&& self.tick_bitmap@.contains_key((c / 256) as i16)
        &&& self.tick_bitmap@[(c / 256) as i16].bit(c % 256)
    }

    /// The model of a liquidity map holds numbers that fit their machine types.
    pub proof fn lemma_view_bounded(&self)
        ensures
            self@.bounded(),
    {
    }

    /// A liquidity map from the state at the current tick and the loaded tick
    /// data.
    pub fn new(
        tick_spacing: i32,
        start_tick: i32,
        start_sqrt_price: SqrtPriceX96,
        start_liquidity: u128,
        initialized_ticks: HashMap<i32, TickInfo>,
        tick_bitmap: HashMap<i16, U256>,
    ) -> (r: BaselineLiquidity)
        ensures
            r.tick_spacing == tick_spacing,
            r.start_tick == start_tick,
            r.start_sqrt_price == start_sqrt_price,
            r.start_liquidity == start_liquidity,
            r.initialized_ticks == initialized_ticks,
            r.tick_bitmap == tick_bitmap,
    {
        BaselineLiquidity {
            tick_spacing,
            start_tick,
            start_sqrt_price,
            start_liquidity,
            initialized_ticks,
            tick_bitmap,
        }
    }

    /// The state at the current tick.
    pub fn current(&self) -> (r: LiquidityAtPoint)
        ensures
            r == (LiquidityAtPoint {
                tick_spacing: self.tick_spacing,
                current_tick: self.start_tick,
                current_sqrt_price: self.start_sqrt_price,
                current_liquidity: self.start_liquidity,
            }),
    {
        LiquidityAtPoint {
            tick_spacing: self.tick_spacing,
            current_tick: self.start_tick,
            current_sqrt_price: self.start_sqrt_price,
            current_liquidity: self.start_liquidity,
        }
    }

    /// Net liquidity of a tick: zero where the tick is not initialized.
    pub fn liquidity_net(&self, tick: i32) -> (r: i128)
        ensures
            r == self@.net(tick as int),
    {
        match self.initialized_ticks.get(&tick) {
            Some(info) => {
                if info.initialized {
                    info.liquidity_net
                } else {
                    0
                }
            },
            None => 0,
        }
    }

    /// The record of tick `tick`, where the table has one.
    pub fn tick_info(&self, tick: i32) -> (r: Option<TickInfo>)
        ensures
            r == (if self.initialized_ticks@.contains_key(tick) {
                Some(self.initialized_ticks@[tick])
            } else {
                None
            }),
    {
        match self.initialized_ticks.get(&tick) {
            Some(info) => Some(*info),
            None => None,
        }
    }

    /// True when the table holds an initialized record for `tick`.
    pub fn is_initialized(&self, tick: i32) -> (r: bool)
        ensures
            r == self.initialized(tick as int),
    {
        match self.initialized_ticks.get(&tick) {
            Some(info) => info.initialized,
            None => false,
        }
    }

    /// True when the bitmap has the bit of compressed tick `c` set.
    pub fn is_bit_set(&self, c: i32) -> (r: bool)
        ensures
            r == self.bit(c as int),
    {
        let w: i32 = floor_div(c, 256);
        if w < -32768 || w > 32767 {
            return false;
        }
        let b: i32 = c - w * 256;
        match self.tick_bitmap.get(&(w as i16)) {
            Some(word) => word.get_bit(b as u8),
            None => false,
        }
    }

    /// Replaces one word of the bitmap.
    pub fn update_tick_bitmap(&mut self, word_pos: i16, word: U256)
        ensures
            final(self).tick_bitmap@ == old(self).tick_bitmap@.insert(word_pos, word),
            final(self).tick_spacing == old(self).tick_spacing,
            final(self).start_tick == old(self).start_tick,
            final(self).start_sqrt_price == old(self).start_sqrt_price,
            final(self).start_liquidity == old(self).start_liquidity,
            final(self).initialized_ticks == old(self).initialized_ticks,
    {
        self.tick_bitmap.insert(word_pos, word);
    }

    /// Sets or clears the bit of compressed tick `c`, leaving every other bit.
    fn write_bit(&mut self, c: i32, value: bool)
        requires
            -0x80_0000 <= c <= 0x7f_ffff,
        ensures
            forall|d: int| #[trigger]
                final(self).bit(d) == (if d == c {
                    value
                } else {
                    old(self).bit(d)
                }),
            final(self).tick_spacing == old(self).tick_spacing,
            final(self).start_tick == old(self).start_tick,
            final(self).start_sqrt_price == old(self).start_sqrt_price,
            final(self).start_liquidity == old(self).start_liquidity,
            final(self).initialized_ticks == old(self).initialized_ticks,
    {
        let w: i32 = floor_div(c, 256);
        let b: i32 = c - w * 256;
        let key: i16 = w as i16;
        let current: Option<U256> = match self.tick_bitmap.get(&key) {
            Some(word) => Some(*word),
            None => None,
        };
        match current {
            Some(word) => {
                let next = if value {
                    word.with_bit(b as u8)
                } else {
                    word.without_bit(b as u8)
                };
                self.tick_bitmap.insert(key, next);
            },
            None => {
                if value {
                    let next = U256::zero().with_bit(b as u8);
                    self.tick_bitmap.insert(key, next);
                }
            },
        }
        proof {
            assert forall|d: int| #[trigger]
                final(self).bit(d) == (if d == c {
                    value
                } else {
                    old(self).bit(d)
                }) by {
                if d / 256 == w as int {
                    assert(0 <= d % 256 < 256);
                }
            }
        }
    }

    /// Computes the new record of a boundary tick without changing anything.
    fn plan_tick(&self, tick: i32, delta: i128, upper: bool) -> (r: Result<
        TickInfo,
        SwapSimulationError,
    >)
        ensures
            match r {
                Ok(info) => self@.tick_after(tick as int, delta as int, upper) == Ok::<
                    (nat, int),
                    SwapSimulationError,
                >((info.liquidity_gross as nat, info.liquidity_net as int)) && info.initialized == (
                info.liquidity_gross > 0),
                Err(e) => self@.tick_after(tick as int, delta as int, upper) == Err::<
                    (nat, int),
                    SwapSimulationError,
                >(e),
            },
    {
        let mut gross: u128 = 0;
        let mut net: i128 = 0;
        match self.initialized_ticks.get(&tick) {
            Some(info) => {
                if info.initialized {
                    gross = info.liquidity_gross;
                    net = info.liquidity_net;
                }
            },
            None => {},
        }
        let new_gross: u128 = match add_delta(gross, delta) {
            Ok(v) => v,
            Err(e) => {
                return Err(e);
            },
        };
        let moved: Option<i128> = if upper {
            net.checked_sub(delta)
        } else {
            net.checked_add(delta)
        };
        let new_net: i128 = match moved {
            Some(v) => v,
            None => {
                return Err(SwapSimulationError::UniswapV3MathError);
            },
        };
        if new_gross == 0 && new_net != 0 {
            return Err(SwapSimulationError::LiquidityUnderflow);
        }
        Ok(TickInfo { liquidity_gross: new_gross, liquidity_net: new_net, initialized: new_gross > 0 })
    }

    /// Stores the new record of a tick, or removes the tick where the record
    /// carries no liquidity, and sets its bit to match.
    fn store_tick(&mut self, tick: i32, c: i32, info: TickInfo)
        requires
            -0x80_0000 <= c <= 0x7f_ffff,
            info.initialized == (info.liquidity_gross > 0),
        ensures
            final(self).tick_spacing == old(self).tick_spacing,
            final(self).start_tick == old(self).start_tick,
            final(self).start_sqrt_price == old(self).start_sqrt_price,
            final(self).start_liquidity == old(self).start_liquidity,
            forall|t: int| #[trigger]
                final(self).initialized(t) == (if t == tick {
                    info.liquidity_gross > 0
                } else {
                    old(self).initialized(t)
                }),
            forall|t: int| #[trigger]
                final(self).gross(t) == (if t == tick {
                    info.liquidity_gross as nat
                } else {
                    old(self).gross(t)
                }),
            forall|t: int| #[trigger]
                final(self).net(t) == (if t == tick {
                    if info.liquidity_gross > 0 {
                        info.liquidity_net as int
                    } else {
                        0
                    }
                } else {
                    old(self).net(t)
                }),
            forall|d: int| #[trigger]
                final(self).bit(d) == (if d == c {
                    info.liquidity_gross > 0
                } else {
                    old(self).bit(d)
                }),
    {
        if info.liquidity_gross > 0 {
            self.initialized_ticks.insert(tick, info);
        } else {
            self.initialized_ticks.remove(&tick);
        }
        self.write_bit(c, info.liquidity_gross > 0);
    }

    /// Adds `delta` to the liquidity of the range `[tick_lower, tick_upper)`:
    /// to the net liquidity of the lower tick, from that of the upper tick, to
    /// the gross liquidity of both, and to the liquidity in range where the
    /// current tick lies in the range. A tick whose gross liquidity returns to
    /// zero leaves the table and has its bit cleared. Where the change cannot be
    /// applied, nothing changes.
    pub fn update_liquidity(&mut self, tick_lower: i32, tick_upper: i32, delta: i128) -> (r: Result<
        (),
        SwapSimulationError,
    >)
        ensures
            match r {
                Ok(_) => old(self)@.update_error(tick_lower as int, tick_upper as int, delta as int)
                    is None,
                Err(e) => old(self)@.update_error(tick_lower as int, tick_upper as int, delta as int)
                    == Some(e) && *final(self) == *old(self),
            },
            final(self)@ == old(self)@.update(tick_lower as int, tick_upper as int, delta as int),
            final(self)@.net_sum() == old(self)@.net_sum(),
            old(self)@.consistent() ==> final(self)@.consistent(),
            old(self)@.liquidity_matches() ==> final(self)@.liquidity_matches(),
    {
        let s: i32 = self.tick_spacing;
        if s <= 0 || tick_lower < MIN_TICK || tick_upper > MAX_TICK || tick_lower >= tick_upper {
            return Err(SwapSimulationError::InvalidTick);
        }
        if !is_usable(tick_lower, s) || !is_usable(tick_upper, s) {
            return Err(SwapSimulationError::InvalidTick);
        }
        let low: TickInfo = match self.plan_tick(tick_lower, delta, false) {
            Ok(info) => info,
            Err(e) => {
                return Err(e);
            },
        };
        let up: TickInfo = match self.plan_tick(tick_upper, delta, true) {
            Ok(info) => info,
            Err(e) => {
                return Err(e);
            },
        };
        let in_range: bool = tick_lower <= self.start_tick && self.start_tick < tick_upper;
        let liquidity: u128 = if in_range {
            match add_delta(self.start_liquidity, delta) {
                Ok(v) => v,
                Err(e) => {
                    return Err(e);
                },
            }
        } else {
            self.start_liquidity
        };
        let c_low: i32 = floor_div(tick_lower, s);
        let c_up: i32 = floor_div(tick_upper, s);
        proof {
            lemma_compressed_bound(tick_lower as int, s as int, c_low as int);
            lemma_compressed_bound(tick_upper as int, s as int, c_up as int);
            lemma_fundamental_div_mod(tick_upper as int, s as int);
            assert(c_low != c_up) by (nonlinear_arith)
                requires
                    (c_low as int) * (s as int) <= (tick_lower as int),
                    (tick_lower as int) < (tick_upper as int),
                    (tick_upper as int) == (s as int) * (c_up as int),
                    s > 0,
            ;
        }
        self.start_liquidity = liquidity;
        self.store_tick(tick_lower, c_low, low);
        self.store_tick(tick_upper, c_up, up);
        proof {
            let before = old(self)@;
            let after = before.update(tick_lower as int, tick_upper as int, delta as int);
            assert(final(self)@.ticks =~= after.ticks);
            assert(final(self)@.bits =~= after.bits);
            lemma_update_preserves_net_sum(before, tick_lower as int, tick_upper as int, delta as int);
            if before.consistent() {
                lemma_update_preserves_consistency(
                    before,
                    tick_lower as int,
                    tick_upper as int,
                    delta as int,
                );
            }
        }
        Ok(())
    }

    /// The highest set bit among the compressed ticks `floor ..= from`.
    fn scan_down(&self, from: i32, floor: i32) -> (r: Option<i32>)
        requires
            -0x10_0000 <= floor <= from <= 0x10_0000,
        ensures
            match r {
                Some(c) => floor <= c <= from && self.bit(c as int) && forall|d: int|
                    c < d <= from ==> !#[trigger] self.bit(d),
                None => forall|d: int| floor <= d <= from ==> !#[trigger] self.bit(d),
            },
    {
        let mut hi: i32 = from;
        loop
            invariant
                -0x10_0000 <= floor <= hi <= from <= 0x10_0000,
                forall|d: int| hi < d <= from ==> !#[trigger] self.bit(d),
            decreases hi - floor,
        {
            let w: i32 = floor_div(hi, 256);
            let b: i32 = hi - w * 256;
            let mut found: Option<u8> = None;
            match self.tick_bitmap.get(&(w as i16)) {
                Some(word) => {
                    found = word.highest_bit_at_or_below(b as u8);
                },
                None => {},
            }
            match found {
                Some(k) => {
                    let c: i32 = w * 256 + k as i32;
                    proof {
                        assert forall|d: int| c < d <= from implies !#[trigger] self.bit(d) by {
                            if d <= hi {
                                assert(d / 256 == w as int);
                            }
                        }
                    }
                    if c >= floor {
                        return Some(c);
                    } else {
                        return None;
                    }
                },
                None => {},
            }
            let next: i32 = w * 256 - 1;
            proof {
                assert forall|d: int| next < d <= from implies !#[trigger] self.bit(d) by {
                    if d <= hi {
                        assert(d / 256 == w as int);
                    }
                }
            }
            if next < floor {
                return None;
            }
            hi = next;
        }
    }

    /// The lowest set bit among the compressed ticks `from ..= ceiling`.
    fn scan_up(&self, from: i32, ceiling: i32) -> (r: Option<i32>)
        requires
            -0x10_0000 <= from <= ceiling <= 0x10_0000,
        ensures
            match r {
                Some(c) => from <= c <= ceiling && self.bit(c as int) && forall|d: int|
                    from <= d < c ==> !#[trigger] self.bit(d),
                None => forall|d: int| from <= d <= ceiling ==> !#[trigger] self.bit(d),
            },
    {
        let mut lo: i32 = from;
        loop
            invariant
                -0x10_0000 <= from <= lo <= ceiling <= 0x10_0000,
                forall|d: int| from <= d < lo ==> !#[trigger] self.bit(d),
            decreases ceiling - lo,
        {
            let w: i32 = floor_div(lo, 256);
            let b: i32 = lo - w * 256;
            let mut found: Option<u8> = None;
            match self.tick_bitmap.get(&(w as i16)) {
                Some(word) => {
                    found = word.lowest_bit_at_or_above(b as u8);
                },
                None => {},
            }
            match found {
                Some(k) => {
                    let c: i32 = w * 256 + k as i32;
                    proof {
                        assert forall|d: int| from <= d < c implies !#[trigger] self.bit(d) by {
                            if d >= lo {
                                assert(d / 256 == w as int);
                            }
                        }
                    }
                    if c <= ceiling {
                        return Some(c);
                    } else {
                        return None;
                    }
                },
                None => {},
            }
            let next: i32 = w * 256 + 256;
            proof {
                assert forall|d: int| from <= d < next implies !#[trigger] self.bit(d) by {
                    if d >= lo {
                        assert(d / 256 == w as int);
                    }
                }
            }
            if next > ceiling {
                return None;
            }
            lo = next;
        }
    }

    /// The next initialized tick from `current_tick` according to the bitmap:
    /// searching downwards (`lte`), the greatest initialized usable tick at or
    /// below it; searching upwards, the least one above it. The search goes
    /// word by word through the bitmap and ends at the bounds of the supported
    /// tick range.
    pub fn next_initialized_tick(&self, current_tick: i32, lte: bool) -> (r: Option<i32>)
        ensures
            match r {
                Some(t) => self@.is_next_tick(current_tick as int, lte, Some(t as int))
                    && self@.next_tick(current_tick as int, lte) == Some(t as int),
                None => self@.is_next_tick(current_tick as int, lte, None) && self@.next_tick(
                    current_tick as int,
                    lte,
                ) is None,
            },
    {
        let r = self.find_next_tick(current_tick, lte);
        proof {
            match r {
                Some(t) => lemma_next_tick_unique(self@, current_tick as int, lte, Some(t as int)),
                None => lemma_next_tick_unique(self@, current_tick as int, lte, None),
            }
        }
        r
    }

    /// The search behind [`Self::next_initialized_tick`].
    fn find_next_tick(&self, current_tick: i32, lte: bool) -> (r: Option<i32>)
        ensures
            match r {
                Some(t) => self@.is_next_tick(current_tick as int, lte, Some(t as int)),
                None => self@.is_next_tick(current_tick as int, lte, None),
            },
    {
        let s: i32 = self.tick_spacing;
        if s <= 0 {
            return None;
        }
        let c_lim: i32 = floor_div(MAX_TICK, s);
        proof {
            lemma_compressed_bound(MAX_TICK as int, s as int, c_lim as int);
            assert(c_lim >= 0) by (nonlinear_arith)
                requires
                    887272 < (c_lim as int + 1) * (s as int),
                    s > 0,
            ;
        }
        if lte {
            if current_tick < MIN_TICK {
                return None;
            }
            let cur: i32 = if current_tick > MAX_TICK {
                MAX_TICK
            } else {
                current_tick
            };
            let c_start: i32 = floor_div(cur, s);
            proof {
                lemma_compressed_bound(cur as int, s as int, c_start as int);
                assert(c_start <= c_lim) by (nonlinear_arith)
                    requires
                        (c_start as int) * (s as int) <= (cur as int) <= 887272,
                        887272 < (c_lim as int + 1) * (s as int),
                        s > 0,
                ;
            }
            if c_start < -c_lim {
                proof {
                    assert forall|x: int| #[trigger] self@.marked(x) implies x > current_tick by {
                        if self@.marked(x) {
                            lemma_marked_index(x, s as int, c_lim as int);
                            lemma_index_order(x / (s as int), s as int, cur as int, c_start as int);
                        }
                    }
                }
                return None;
            }
            match self.scan_down(c_start, -c_lim) {
                Some(c) => {
                    proof {
                        lemma_index_in_range(c as int, s as int, c_lim as int);
                        lemma_compress_multiple(c as int, s as int);
                        assert((c as int) * (s as int) <= cur as int) by (nonlinear_arith)
                            requires
                                c <= c_start,
                                (c_start as int) * (s as int) <= (cur as int),
                                s > 0,
                        ;
                        assert forall|x: int| #[trigger]
                            self@.marked(x) && x <= current_tick implies x <= (c as int) * (
                        s as int) by {
                            lemma_marked_index(x, s as int, c_lim as int);
                            lemma_index_order(x / (s as int), s as int, cur as int, c_start as int);
                            let cx = x / (s as int);
                            assert(self.bit(cx));
                            assert(cx <= c);
                            lemma_usable_tick(x, s as int);
                            assert(cx * (s as int) <= (c as int) * (s as int)) by (nonlinear_arith)
                                requires
                                    cx <= c,
                                    s > 0,
                            ;
                        }
                    }
                    Some(c * s)
                },
                None => {
                    proof {
                        assert forall|x: int| #[trigger] self@.marked(x) implies x
                            > current_tick by {
                            if self@.marked(x) && x <= current_tick {
                                lemma_marked_index(x, s as int, c_lim as int);
                                lemma_index_order(
                                    x / (s as int),
                                    s as int,
                                    cur as int,
                                    c_start as int,
                                );
                                assert(self.bit(x / (s as int)));
                            }
                        }
                    }
                    None
                },
            }
        } else {
            if current_tick >= MAX_TICK {
                return None;
            }
            let cur: i32 = if current_tick < MIN_TICK {
                MIN_TICK - 1
            } else {
                current_tick
            };
            let q: i32 = floor_div(cur, s);
            proof {
                assert(-887274 <= q <= c_lim) by (nonlinear_arith)
                    requires
                        (q as int) * (s as int) <= (cur as int) < (q as int + 1) * (s as int),
                        -887273 <= cur < 887272,
                        887272 < (c_lim as int + 1) * (s as int),
                        s > 0,
                ;
            }
            let c_start: i32 = if q + 1 < -c_lim {
                -c_lim
            } else {
                q + 1
            };
            if c_start > c_lim {
                proof {
                    assert forall|x: int| #[trigger] self@.marked(x) implies x <= current_tick by {
                        if self@.marked(x) && x > current_tick {
                            lemma_marked_index(x, s as int, c_lim as int);
                            lemma_index_above(x / (s as int), s as int, cur as int, q as int);
                        }
                    }
                }
                return None;
            }
            match self.scan_up(c_start, c_lim) {
                Some(c) => {
                    proof {
                        lemma_index_in_range(c as int, s as int, c_lim as int);
                        lemma_compress_multiple(c as int, s as int);
                        assert((c as int) * (s as int) > cur as int) by (nonlinear_arith)
                            requires
                                c >= q + 1,
                                (cur as int) < (q as int + 1) * (s as int),
                                s > 0,
                        ;
                        assert forall|x: int| #[trigger]
                            self@.marked(x) && x > current_tick implies x >= (c as int) * (
                        s as int) by {
                            lemma_marked_index(x, s as int, c_lim as int);
                            lemma_index_above(x / (s as int), s as int, cur as int, q as int);
                            let cx = x / (s as int);
                            assert(self.bit(cx));
                            assert(cx >= c);
                            lemma_usable_tick(x, s as int);
                            assert(cx * (s as int) >= (c as int) * (s as int)) by (nonlinear_arith)
                                requires
                                    cx >= c,
                                    s > 0,
                            ;
                        }
                    }
                    Some(c * s)
                },
                None => {
                    proof {
                        assert forall|x: int| #[trigger] self@.marked(x) implies x
                            <= current_tick by {
                            if self@.marked(x) && x > current_tick {
                                lemma_marked_index(x, s as int, c_lim as int);
                                lemma_index_above(x / (s as int), s as int, cur as int, q as int);
                                assert(self.bit(x / (s as int)));
                            }
                        }
                    }
                    None
                },
            }
        }
    }

    /// Merges freshly loaded tick data into the map: each tick record and each
    /// bitmap word replaces what the map held under the same key, later
    /// entries of a list winning over earlier ones.
    pub fn extend(&mut self, ticks: &Vec<(i32, TickInfo)>, bitmap_words: &Vec<(i16, U256)>)
        ensures
            final(self)@ == old(self)@.extended(ticks@, bitmap_words@),
            final(self).initialized_ticks@ == inserted_all(old(self).initialized_ticks@, ticks@),
            final(self).tick_bitmap@ == inserted_all(old(self).tick_bitmap@, bitmap_words@),
            final(self).tick_spacing == old(self).tick_spacing,
            final(self).start_tick == old(self).start_tick,
            final(self).start_sqrt_price == old(self).start_sqrt_price,
            final(self).start_liquidity == old(self).start_liquidity,
    {
        let mut i: usize = 0;
        proof {
            assert(ticks@.take(0) =~= Seq::<(i32, TickInfo)>::empty());
        }
        while i < ticks.len()
            invariant
                i <= ticks.len(),
                self.initialized_ticks@ == inserted_all(
                    old(self).initialized_ticks@,
                    ticks@.take(i as int),
                ),
                self@ == old(self)@.with_ticks(ticks@.take(i as int)),
                self.tick_bitmap == old(self).tick_bitmap,
                self.tick_spacing == old(self).tick_spacing,
                self.start_tick == old(self).start_tick,
                self.start_sqrt_price == old(self).start_sqrt_price,
                self.start_liquidity == old(self).start_liquidity,
            decreases ticks.len() - i,
        {
            let entry: (i32, TickInfo) = ticks[i];
            let ghost before = self@;
            self.initialized_ticks.insert(entry.0, entry.1);
            proof {
                assert(ticks@.take(i + 1).drop_last() =~= ticks@.take(i as int));
                assert(self@.ticks =~= before.with_tick(entry.0, entry.1).ticks);
                assert(self@.bits =~= before.bits);
            }
            i = i + 1;
        }
        proof {
            assert(ticks@.take(ticks.len() as int) =~= ticks@);
            assert(bitmap_words@.take(0) =~= Seq::<(i16, U256)>::empty());
        }
        let mut j: usize = 0;
        while j < bitmap_words.len()
            invariant
                j <= bitmap_words.len(),
                self.tick_bitmap@ == inserted_all(
                    old(self).tick_bitmap@,
                    bitmap_words@.take(j as int),
                ),
                self@ == old(self)@.with_ticks(ticks@).with_words(bitmap_words@.take(j as int)),
                self.initialized_ticks@ == inserted_all(old(self).initialized_ticks@, ticks@),
                self.tick_spacing == old(self).tick_spacing,
                self.start_tick == old(self).start_tick,
                self.start_sqrt_price == old(self).start_sqrt_price,
                self.start_liquidity == old(self).start_liquidity,
            decreases bitmap_words.len() - j,
        {
            let entry: (i16, U256) = bitmap_words[j];
            let ghost before = self@;
            self.tick_bitmap.insert(entry.0, entry.1);
            proof {
                assert(bitmap_words@.take(j + 1).drop_last() =~= bitmap_words@.take(j as int));
                assert(self@.ticks =~= before.ticks);
                assert(self@.bits =~= before.with_word(entry.0, entry.1).bits);
            }
            j = j + 1;
        }
        proof {
            assert(bitmap_words@.take(bitmap_words.len() as int) =~= bitmap_words@);
        }
    }
}

/// The compressed index of a tick of the supported range lies in that range.
pub proof fn lemma_compressed_bound(tick: int, s: int, c: int)
    requires
        s > 0,
        tick_in_range(tick),
        c * s <= tick < (c + 1) * s,
    ensures
        MIN_TICK <= c <= MAX_TICK,
{
    assert(MIN_TICK <= c <= MAX_TICK) by (nonlinear_arith)
        requires
            s > 0,
            -887272 <= tick <= 887272,
            c * s <= tick < (c + 1) * s,
    ;
}

/// Two tick tables that differ at two ticks only have net sums that differ by
/// those two differences.
pub proof fn lemma_net_sum_frame(
    a: LiquidityModel,
    b: LiquidityModel,
    p: int,
    dp: int,
    q: int,
    dq: int,
    t: int,
)
    requires
        p != q,
        forall|x: int| #[trigger]
            b.net(x) == a.net(x) + (if x == p {
                dp
            } else {
                0
            }) + (if x == q {
                dq
            } else {
                0
            }),
    ensures
        b.net_sum_upto(t) == a.net_sum_upto(t) + (if MIN_TICK <= p <= t {
            dp
        } else {
            0
        }) + (if MIN_TICK <= q <= t {
            dq
        } else {
            0
        }),
    decreases t - MIN_TICK + 1,
{
    if t >= MIN_TICK {
        lemma_net_sum_frame(a, b, p, dp, q, dq, t - 1);
    }
}

/// A multiple of the spacing divided by the spacing gives the factor back.
pub proof fn lemma_compress_multiple(c: int, s: int)
    requires
        s > 0,
    ensures
        (c * s) % s == 0,
        (c * s) / s == c,
{
    lemma_fundamental_div_mod_converse(c * s, s, c, 0);
}

/// A usable tick is its compressed index times the spacing.
pub proof fn lemma_usable_tick(t: int, s: int)
    requires
        s > 0,
        t % s == 0,
    ensures
        (t / s) * s == t,
{
    lemma_fundamental_div_mod(t, s);
    assert((t / s) * s == t) by (nonlinear_arith)
        requires
            t == s * (t / s) + t % s,
            t % s == 0,
    ;
}

/// Conservation law: a liquidity change leaves the sum of the net liquidity of
/// the initialized ticks as it was, and keeps the liquidity in range equal to
/// what the ticks at or below the current tick have added.
pub proof fn lemma_update_preserves_net_sum(m: LiquidityModel, lower: int, upper: int, delta: int)
    ensures
        m.update(lower, upper, delta).net_sum() == m.net_sum(),
        m.conserved() ==> m.update(lower, upper, delta).conserved(),
        m.liquidity_matches() ==> m.update(lower, upper, delta).liquidity_matches(),
{
    if m.update_error(lower, upper, delta) is None {
        let after = m.update(lower, upper, delta);
        assert forall|x: int| #[trigger]
            after.net(x) == m.net(x) + (if x == lower {
                delta
            } else {
                0
            }) + (if x == upper {
                -delta
            } else {
                0
            }) by {}
        lemma_net_sum_frame(m, after, lower, delta, upper, -delta, MAX_TICK as int);
        lemma_net_sum_frame(m, after, lower, delta, upper, -delta, m.tick);
    }
}

/// Index law: a liquidity change keeps the tick table and the bitmap in
/// agreement.
pub proof fn lemma_update_preserves_consistency(
    m: LiquidityModel,
    lower: int,
    upper: int,
    delta: int,
)
    requires
        m.consistent(),
    ensures
        m.update(lower, upper, delta).consistent(),
{
    if m.update_error(lower, upper, delta) is None {
        let after = m.update(lower, upper, delta);
        let s = m.tick_spacing;
        let cl = lower / s;
        let cu = upper / s;
        lemma_usable_tick(lower, s);
        lemma_usable_tick(upper, s);
        assert forall|t: int| #[trigger] after.ticks.contains_key(t) implies {
            &&& tick_in_range(t)
            &&& t % s == 0
            &&& after.ticks[t].0 > 0
            &&& after.bits.contains(t / s)
        } by {
            if t != lower && t != upper {
                assert(m.ticks.contains_key(t));
                lemma_usable_tick(t, s);
            }
        }
        assert forall|c: int| #[trigger]
            after.bits.contains(c) && tick_in_range(c * s) implies after.ticks.contains_key(
            c * s,
        ) by {
            lemma_compress_multiple(c, s);
            if c != cl && c != cu {
                assert(m.bits.contains(c));
            }
        }
    }
}

/// Inverse law: on a map whose table and bitmap agree, a liquidity change
/// followed by the opposite change on the same range gives the map back.
pub proof fn lemma_update_inverse(m: LiquidityModel, lower: int, upper: int, delta: int)
    requires
        m.bounded(),
        m.consistent(),
        m.update_error(lower, upper, delta) is None,
    ensures
        m.update(lower, upper, delta).update_error(lower, upper, -delta) is None,
        m.update(lower, upper, delta).update(lower, upper, -delta) == m,
{
    let mid = m.update(lower, upper, delta);
    let back = mid.update(lower, upper, -delta);
    let s = m.tick_spacing;
    lemma_usable_tick(lower, s);
    lemma_usable_tick(upper, s);
    lemma_compress_multiple(lower / s, s);
    lemma_compress_multiple(upper / s, s);
    assert(m.bits.contains(lower / s) == m.ticks.contains_key(lower));
    assert(m.bits.contains(upper / s) == m.ticks.contains_key(upper));
    assert(mid.gross(lower) == m.gross(lower) + delta);
    assert(mid.net(lower) == m.net(lower) + delta);
    assert(mid.gross(upper) == m.gross(upper) + delta);
    assert(mid.net(upper) == m.net(upper) - delta);
    assert(mid.tick_after(lower, -delta, false) == Ok::<(nat, int), SwapSimulationError>(
        (m.gross(lower), m.net(lower)),
    ));
    assert(mid.tick_after(upper, -delta, true) == Ok::<(nat, int), SwapSimulationError>(
        (m.gross(upper), m.net(upper)),
    ));
    assert(mid.update_error(lower, upper, -delta) is None);
    assert(back.ticks =~= m.ticks);
    assert(back.bits =~= m.bits);
}

/// A marked tick is its compressed index times the spacing, and that index
/// lies within the compressed bounds of the tick range.
pub proof fn lemma_marked_index(x: int, s: int, c_lim: int)
    requires
        s > 0,
        tick_in_range(x),
        x % s == 0,
        c_lim * s <= 887272 < (c_lim + 1) * s,
    ensures
        (x / s) * s == x,
        -c_lim <= x / s <= c_lim,
{
    lemma_usable_tick(x, s);
    let c = x / s;
    assert(-c_lim <= c <= c_lim) by (nonlinear_arith)
        requires
            c * s == x,
            -887272 <= x <= 887272,
            c_lim * s <= 887272 < (c_lim + 1) * s,
            s > 0,
    ;
}

/// A compressed index within the compressed bounds stands for a tick of the
/// supported range.
pub proof fn lemma_index_in_range(c: int, s: int, c_lim: int)
    requires
        s > 0,
        -c_lim <= c <= c_lim,
        c_lim * s <= 887272,
    ensures
        tick_in_range(c * s),
{
    assert(-887272 <= c * s <= 887272) by (nonlinear_arith)
        requires
            -c_lim <= c <= c_lim,
            c_lim * s <= 887272,
            s > 0,
    ;
}

/// A multiple of the spacing at or below a tick has an index at or below the
/// compressed index of that tick.
pub proof fn lemma_index_order(c: int, s: int, cur: int, q: int)
    requires
        s > 0,
        q * s <= cur < (q + 1) * s,
    ensures
        c * s <= cur ==> c <= q,
{
    assert(c * s <= cur ==> c <= q) by (nonlinear_arith)
        requires
            s > 0,
            q * s <= cur < (q + 1) * s,
    ;
}

/// A multiple of the spacing above a tick has an index above the compressed
/// index of that tick.
pub proof fn lemma_index_above(c: int, s: int, cur: int, q: int)
    requires
        s > 0,
        q * s <= cur < (q + 1) * s,
    ensures
        c * s > cur ==> c > q,
{
    assert(c * s > cur ==> c > q) by (nonlinear_arith)
        requires
            s > 0,
            q * s <= cur < (q + 1) * s,
    ;
}

/// What the downward search finds is the greatest marked tick at or below
/// its start.
pub proof fn lemma_next_down(m: LiquidityModel, t: int)
    ensures
        match m.next_down(t) {
            Some(r) => m.marked(r) && r <= t && forall|x: int| #[trigger]
                m.marked(x) && x <= t ==> x <= r,
            None => forall|x: int| #[trigger] m.marked(x) ==> x > t,
        },
    decreases t - MIN_TICK + 1,
{
    if t >= MIN_TICK && !m.marked(t) {
        lemma_next_down(m, t - 1);
    }
}

/// What the upward search finds is the least marked tick at or above its
/// start.
pub proof fn lemma_next_up(m: LiquidityModel, t: int)
    ensures
        match m.next_up(t) {
            Some(r) => m.marked(r) && r >= t && forall|x: int| #[trigger]
                m.marked(x) && x >= t ==> x >= r,
            None => forall|x: int| #[trigger] m.marked(x) ==> x < t,
        },
    decreases MAX_TICK - t + 1,
{
    if t <= MAX_TICK && !m.marked(t) {
        lemma_next_up(m, t + 1);
    }
}

/// There is one answer to "which is the next initialized tick", and
/// `next_tick` is it.
pub proof fn lemma_next_tick_unique(m: LiquidityModel, current: int, lte: bool, r: Option<int>)
    requires
        m.is_next_tick(current, lte, r),
    ensures
        r == m.next_tick(current, lte),
{
    if lte {
        lemma_next_down(
            m,
            if current > MAX_TICK {
                MAX_TICK as int
            } else {
                current
            },
        );
    } else {
        lemma_next_up(
            m,
            if current < MIN_TICK {
                MIN_TICK as int
            } else {
                current + 1
            },
        );
    }
    match (r, m.next_tick(current, lte)) {
        (Some(a), Some(b)) => {
            assert(m.marked(a) && m.marked(b));
        },
        (Some(a), None) => {
            assert(m.marked(a));
        },
        (None, Some(b)) => {
            assert(m.marked(b));
        },
        (None, None) => {},
    }
}

/// The next initialized tick lies on the side of the current tick that the
/// search goes to, within the supported range.
pub proof fn lemma_next_tick_side(m: LiquidityModel, current: int, lte: bool)
    ensures
        match m.next_tick(current, lte) {
            Some(t) => tick_in_range(t) && m.marked(t) && (if lte {
                t <= current
            } else {
                t > current
            }),
            None => true,
        },
{
    if lte {
        lemma_next_down(
            m,
            if current > MAX_TICK {
                MAX_TICK as int
            } else {
                current
            },
        );
    } else {
        lemma_next_up(
            m,
            if current < MIN_TICK {
                MIN_TICK as int
            } else {
                current + 1
            },
        );
    }
}

/// A change of the liquidity of a range.
pub struct LiquidityChange {
    pub lower: int,
    pub upper: int,
    pub delta: int,
}

/// The map after a list of liquidity changes, applied in order.
pub open spec fn apply_changes(m: LiquidityModel, changes: Seq<LiquidityChange>) -> LiquidityModel
    decreases changes.len(),
{
    if changes.len() == 0 {
        m
    } else {
        apply_changes(m, changes.drop_last()).update(
            changes.last().lower,
            changes.last().upper,
            changes.last().delta,
        )
    }
}

/// True when each change of a list can be applied in its turn.
pub open spec fn changes_apply(m: LiquidityModel, changes: Seq<LiquidityChange>) -> bool
    decreases changes.len(),
{
    if changes.len() == 0 {
        true
    } else {
        changes_apply(m, changes.drop_last()) && apply_changes(
            m,
            changes.drop_last(),
        ).update_error(changes.last().lower, changes.last().upper, changes.last().delta) is None
    }
}

/// The changes that undo a list of changes: the opposite of each, last
/// change first.
pub open spec fn inverse_changes(changes: Seq<LiquidityChange>) -> Seq<LiquidityChange> {
    Seq::new(
        changes.len(),
        |i: int|
            LiquidityChange {
                lower: changes[changes.len() - 1 - i].lower,
                upper: changes[changes.len() - 1 - i].upper,
                delta: -changes[changes.len() - 1 - i].delta,
            },
    )
}

/// A liquidity change keeps every number of the map within its machine type.
pub proof fn lemma_update_preserves_bounds(m: LiquidityModel, lower: int, upper: int, delta: int)
    requires
        m.bounded(),
    ensures
        m.update(lower, upper, delta).bounded(),
{
}

/// Applying a change and then a list of changes is applying the list with
/// the change in front.
pub proof fn lemma_apply_changes_front(
    m: LiquidityModel,
    first: LiquidityChange,
    rest: Seq<LiquidityChange>,
)
    ensures
        apply_changes(m, seq![first] + rest) == apply_changes(
            m.update(first.lower, first.upper, first.delta),
            rest,
        ),
    decreases rest.len(),
{
    let all = seq![first] + rest;
    if rest.len() == 0 {
        assert(all.drop_last() =~= Seq::<LiquidityChange>::empty());
        assert(all.last() == first);
        assert(apply_changes(m, Seq::<LiquidityChange>::empty()) == m);
        assert(apply_changes(m, all) == m.update(first.lower, first.upper, first.delta));
    } else {
        assert(all.drop_last() =~= seq![first] + rest.drop_last());
        assert(all.last() == rest.last());
        lemma_apply_changes_front(m, first, rest.drop_last());
        assert(apply_changes(m, all) == apply_changes(m, all.drop_last()).update(
            rest.last().lower,
            rest.last().upper,
            rest.last().delta,
        ));
    }
}

/// A list of changes that apply keeps the map bounded and its table and
/// bitmap in agreement.
pub proof fn lemma_changes_preserve(m: LiquidityModel, changes: Seq<LiquidityChange>)
    requires
        m.bounded(),
        m.consistent(),
    ensures
        apply_changes(m, changes).bounded(),
        apply_changes(m, changes).consistent(),
        apply_changes(m, changes).net_sum() == m.net_sum(),
    decreases changes.len(),
{
    if changes.len() > 0 {
        lemma_changes_preserve(m, changes.drop_last());
        let before = apply_changes(m, changes.drop_last());
        let c = changes.last();
        lemma_update_preserves_bounds(before, c.lower, c.upper, c.delta);
        lemma_update_preserves_consistency(before, c.lower, c.upper, c.delta);
        lemma_update_preserves_net_sum(before, c.lower, c.upper, c.delta);
    }
}

/// Replay law: on a map whose table and bitmap agree, undoing a list of
/// liquidity changes, last change first, gives back the map from before the
/// changes; applying the same changes again then gives back the map from
/// before the undoing, bit for bit.
pub proof fn lemma_reorg_replay(m: LiquidityModel, changes: Seq<LiquidityChange>)
    requires
        m.bounded(),
        m.consistent(),
        changes_apply(m, changes),
    ensures
        changes_apply(apply_changes(m, changes), inverse_changes(changes)),
        apply_changes(apply_changes(m, changes), inverse_changes(changes)) == m,
        apply_changes(
            apply_changes(apply_changes(m, changes), inverse_changes(changes)),
            changes,
        ) == apply_changes(m, changes),
    decreases changes.len(),
{
    let inverse = inverse_changes(changes);
    if changes.len() == 0 {
        assert(inverse =~= Seq::<LiquidityChange>::empty());
    } else {
        let front = changes.drop_last();
        let c = changes.last();
        let before = apply_changes(m, front);
        let after = apply_changes(m, changes);
        lemma_reorg_replay(m, front);
        lemma_changes_preserve(m, front);
        lemma_update_inverse(before, c.lower, c.upper, c.delta);
        let undo = LiquidityChange { lower: c.lower, upper: c.upper, delta: -c.delta };
        assert(inverse =~= seq![undo] + inverse_changes(front));
        lemma_apply_changes_front(after, undo, inverse_changes(front));
        lemma_changes_apply_front(after, undo, inverse_changes(front));
    }
}

/// A list of changes with a change in front applies exactly when the change
/// applies and the list applies after it.
pub proof fn lemma_changes_apply_front(
    m: LiquidityModel,
    first: LiquidityChange,
    rest: Seq<LiquidityChange>,
)
    ensures
        changes_apply(m, seq![first] + rest) == (m.update_error(
            first.lower,
            first.upper,
            first.delta,
        ) is None && changes_apply(m.update(first.lower, first.upper, first.delta), rest)),
    decreases rest.len(),
{
    let all = seq![first] + rest;
    if rest.len() == 0 {
        assert(all.drop_last() =~= Seq::<LiquidityChange>::empty());
        assert(all.last() == first);
        assert(apply_changes(m, Seq::<LiquidityChange>::empty()) == m);
        assert(changes_apply(m, Seq::<LiquidityChange>::empty()));
        assert(changes_apply(m, all) == (m.update_error(first.lower, first.upper, first.delta)
            is None));
    } else {
        assert(all.drop_last() =~= seq![first] + rest.drop_last());
        assert(all.last() == rest.last());
        lemma_changes_apply_front(m, first, rest.drop_last());
        lemma_apply_changes_front(m, first, rest.drop_last());
    }
}

} // verus!

//! The price ratchet: within one window, the price charged to the buyers of
//! an asset never falls below a price already charged in that window.

use vstd::prelude::*;
use crate::curve::SwapQuote;
use crate::errors::AmmError;
use crate::helpers::{calculate_limit_price, limit_price, scale_amount, scaled, MAX_PRECISION};
use crate::states::pooldata::PoolData;

verus! {

/// The ceiling after a trade at `ratio`: the higher of the two.
pub open spec fn raised(ceiling: Option<u128>, ratio: u128) -> u128 {
    match ceiling {
        Some(c) => if c > ratio {
            c
        } else {
            ratio
        },
        None => ratio,
    }
}

/// The price of an asset before the trade, from the reserves alone: for
/// buyers of X the reserve of Y per unit of the reserve of X, for buyers of Y
/// the reverse.
pub open spec fn spot_price(is_buying_x: bool, reserve_x: u64, reserve_y: u64, precision: u8) -> Result<
    u128,
    AmmError,
> {
    if is_buying_x {
        limit_price(reserve_y, reserve_x, precision)
    } else {
        limit_price(reserve_x, reserve_y, precision)
    }
}

impl PoolData {
    /// The two ceilings are set together, and ten to the power of the
    /// precision fits in 128 bits.
    pub open spec fn wf(self) -> bool {
        &&& self.buying_x_high is Some <==> self.buying_y_high is Some
        &&& self.precision <= MAX_PRECISION
    }

    /// The ceiling kept for the buyers of one asset.
    pub open spec fn ceiling(self, is_buying_x: bool) -> Option<u128> {
        if is_buying_x {
            self.buying_x_high
        } else {
            self.buying_y_high
        }
    }

    /// The ceiling that a trade in `slot` meets. A trade in another slot than
    /// the last opens a new window, in which nothing is set yet.
    pub open spec fn ceiling_at(self, slot: u64, is_buying_x: bool) -> Option<u128> {
        if slot == self.last_slot {
            self.ceiling(is_buying_x)
        } else {
            None
        }
    }

    /// The price that a trade at `ratio` in `slot` is charged: `ratio`, or
    /// the ceiling where that is higher.
    pub open spec fn effective_price(self, slot: u64, is_buying_x: bool, ratio: u128) -> u128 {
        raised(self.ceiling_at(slot, is_buying_x), ratio)
    }

    /// The window after a trade in `slot` was charged `effective` and the
    /// other direction's ceiling is `other`.
    pub open spec fn advanced(self, slot: u64, is_buying_x: bool, effective: u128, other: u128) -> PoolData {
        PoolData {
            last_slot: slot,
            buying_x_high: Some(
                if is_buying_x {
                    effective
                } else {
                    other
                },
            ),
            buying_y_high: Some(
                if is_buying_x {
                    other
                } else {
                    effective
                },
            ),
            precision: self.precision,
        }
    }

    /// What `clamp` does: the window after the trade and the amounts that
    /// move, or the reason why the trade is refused.
    pub open spec fn clamped(
        self,
        slot: u64,
        is_buying_x: bool,
        quote: SwapQuote,
        reserve_x: u64,
        reserve_y: u64,
        amount_out_min: u64,
    ) -> Result<(PoolData, SwapQuote), AmmError> {
        match limit_price(quote.deposit, quote.withdraw, self.precision) {
            Err(e) => Err(e),
            Ok(ratio) => {
                let seed = match self.ceiling_at(slot, !is_buying_x) {
                    Some(c) => Ok(c),
                    None => spot_price(!is_buying_x, reserve_x, reserve_y, self.precision),
                };
                match seed {
                    Err(e) => Err(e),
                    Ok(other) => {
                        let effective = self.effective_price(slot, is_buying_x, ratio);
                        let out = scaled(quote.deposit, self.precision).unwrap() / effective;
                        if effective == 0 || out > u64::MAX {
                            Err(AmmError::Overflow)
                        } else if out < amount_out_min {
                            Err(AmmError::SlippageExceeded)
                        } else if quote.deposit == 0 || out == 0 {
                            Err(AmmError::ZeroBalance)
                        } else {
                            Ok(
                                (
                                    self.advanced(slot, is_buying_x, effective, other),
                                    SwapQuote { deposit: quote.deposit, withdraw: out as u64 },
                                ),
                            )
                        }
                    },
                }
            },
        }
    }

    /// Holds a quoted trade to the window's ceiling and records it.
    ///
    /// The trade's price is `quote.deposit * 10^precision / quote.withdraw`.
    /// A trade in another slot than `last_slot` opens a new window and
    /// forgets both ceilings. The trade is charged the higher of its price
    /// and the ceiling of its direction, and that becomes the ceiling. A
    /// ceiling of the other direction that is not set is set to the price
    /// that the reserves give before the trade. The amount paid out is
    /// `quote.deposit * 10^precision / price charged`, rounded down; the
    /// amount paid in is never changed.
    ///
    /// Refused with what `calculate_limit_price` refuses, for the trade's
    /// price and then for the other direction's price where that is needed;
    /// with `Overflow` where the price charged is zero or the amount paid out
    /// does not fit in 64 bits; with `SlippageExceeded` where the amount paid
    /// out is below `amount_out_min`; with `ZeroBalance` where an amount is
    /// zero; in that order. A refused trade leaves the window as it was.
    pub fn clamp(
        &mut self,
        current_slot: u64,
        is_buying_x: bool,
        quote: SwapQuote,
        reserve_x: u64,
        reserve_y: u64,
        amount_out_min: u64,
    ) -> (r: Result<SwapQuote, AmmError>)
        ensures
            match r {
                Ok(q) => old(self).clamped(
                    current_slot,
                    is_buying_x,
                    quote,
                    reserve_x,
                    reserve_y,
                    amount_out_min,
                ) == Ok::<(PoolData, SwapQuote), AmmError>((*final(self), q)),
                Err(e) => old(self).clamped(
                    current_slot,
                    is_buying_x,
                    quote,
                    reserve_x,
                    reserve_y,
                    amount_out_min,
                ) == Err::<(PoolData, SwapQuote), AmmError>(e) && *final(self) == *old(self),
            },
            old(self).wf() ==> final(self).wf(),
    {
        let ratio: u128 = match calculate_limit_price(quote.deposit, quote.withdraw, self.precision) {
            Ok(p) => p,
            Err(e) => {
                return Err(e);
            },
        };
        let in_window: bool = current_slot == self.last_slot;
        let (own, other): (Option<u128>, Option<u128>) = if !in_window {
            (None, None)
        } else if is_buying_x {
            (self.buying_x_high, self.buying_y_high)
        } else {
            (self.buying_y_high, self.buying_x_high)
        };
        let other_high: u128 = match other {
            Some(c) => c,
            None => {
                let spot = if is_buying_x {
                    calculate_limit_price(reserve_x, reserve_y, self.precision)
                } else {
                    calculate_limit_price(reserve_y, reserve_x, self.precision)
                };
                match spot {
                    Ok(p) => p,
                    Err(e) => {
                        return Err(e);
                    },
                }
            },
        };
        let effective: u128 = match own {
            Some(c) => if c > ratio {
                c
            } else {
                ratio
            },
            None => ratio,
        };
        let scaled_deposit: u128 = match scale_amount(quote.deposit, self.precision) {
            Ok(s) => s,
            Err(e) => {
                return Err(e);
            },
        };
        if effective == 0 {
            return Err(AmmError::Overflow);
        }
        let out: u128 = scaled_deposit / effective;
        if out > u64::MAX as u128 {
            return Err(AmmError::Overflow);
        }
        if out < amount_out_min as u128 {
            return Err(AmmError::SlippageExceeded);
        }
        if quote.deposit == 0 || out == 0 {
            return Err(AmmError::ZeroBalance);
        }
        self.last_slot = current_slot;
        if is_buying_x {
            self.buying_x_high = Some(effective);
            self.buying_y_high = Some(other_high);
        } else {
            self.buying_x_high = Some(other_high);
            self.buying_y_high = Some(effective);
        }
        Ok(SwapQuote { deposit: quote.deposit, withdraw: out as u64 })
    }
}

/// One trade as the ratchet sees it.
#[derive(Clone, Copy, Debug, PartialEq, Eq, Structural)]
pub struct Trade {
    /// Whether the trade pays in Y and buys X, or the reverse.
    pub is_buying_x: bool,
    /// The amounts that the curve quoted.
    pub quote: SwapQuote,
    /// The reserve of X before the trade.
    pub reserve_x: u64,
    /// The reserve of Y before the trade.
    pub reserve_y: u64,
    /// The least amount that the trader accepts.
    pub amount_out_min: u64,
}

impl PoolData {
    /// The outcome of `clamp` for one trade.
    pub open spec fn traded(self, slot: u64, t: Trade) -> Result<(PoolData, SwapQuote), AmmError> {
        self.clamped(slot, t.is_buying_x, t.quote, t.reserve_x, t.reserve_y, t.amount_out_min)
    }

    /// The prices charged, in order, to the buyers of one asset by the trades
    /// of `trades` that succeed, all of them in `slot`. A refused trade
    /// leaves the window as it was and is charged nothing.
    pub open spec fn prices_charged(self, slot: u64, trades: Seq<Trade>, is_buying_x: bool) -> Seq<u128>
        decreases trades.len(),
    {
        if trades.len() == 0 {
            Seq::empty()
        } else {
            match self.traded(slot, trades[0]) {
                Ok((next, _)) => {
                    let rest = next.prices_charged(slot, trades.drop_first(), is_buying_x);
                    if trades[0].is_buying_x == is_buying_x {
                        seq![next.ceiling(is_buying_x).unwrap()] + rest
                    } else {
                        rest
                    }
                },
                Err(_) => self.prices_charged(slot, trades.drop_first(), is_buying_x),
            }
        }
    }
}

/// After any trade both ceilings are set, for the slot of the trade. A trade
/// that opens a new window sets the ceiling of its direction to its own
/// price and the other ceiling to the price that the reserves give.
pub proof fn lemma_trade_sets_both_ceilings(data: PoolData, slot: u64, t: Trade)
    requires
        data.traded(slot, t) is Ok,
    ensures
        ({
            let next = data.traded(slot, t).unwrap().0;
            &&& next.last_slot == slot
            &&& next.precision == data.precision
            &&& next.buying_x_high is Some
            &&& next.buying_y_high is Some
            &&& slot != data.last_slot ==> {
                &&& Ok::<u128, AmmError>(next.ceiling(t.is_buying_x).unwrap()) == limit_price(
                    t.quote.deposit,
                    t.quote.withdraw,
                    data.precision,
                )
                &&& Ok::<u128, AmmError>(next.ceiling(!t.is_buying_x).unwrap()) == spot_price(
                    !t.is_buying_x,
                    t.reserve_x,
                    t.reserve_y,
                    data.precision,
                )
            }
        }),
{
}

/// What a trade is charged: the price is the new ceiling of its direction,
/// it is no lower than the trade's own price nor than the ceiling that the
/// trade met, and the amounts that move are no better for the trader than
/// that price. The amount paid in is the amount quoted.
pub proof fn lemma_price_charged(data: PoolData, slot: u64, t: Trade)
    requires
        data.traded(slot, t) is Ok,
    ensures
        ({
            let (next, moved) = data.traded(slot, t).unwrap();
            let price = next.ceiling(t.is_buying_x).unwrap();
            let ratio = limit_price(t.quote.deposit, t.quote.withdraw, data.precision).unwrap();
            &&& price == data.effective_price(slot, t.is_buying_x, ratio)
            &&& price >= ratio
            &&& data.ceiling_at(slot, t.is_buying_x) matches Some(c) ==> price >= c
            &&& moved.deposit == t.quote.deposit
            &&& moved.withdraw >= t.amount_out_min
            &&& moved.withdraw > 0
            &&& moved.withdraw * price <= scaled(t.quote.deposit, data.precision).unwrap()
        }),
{
    let ratio = limit_price(t.quote.deposit, t.quote.withdraw, data.precision).unwrap();
    let price = data.effective_price(slot, t.is_buying_x, ratio);
    let total = scaled(t.quote.deposit, data.precision).unwrap();
    assert((total / price) * price <= total) by (nonlinear_arith)
        requires
            price > 0,
            total >= 0,
    ;
}

/// How the amount paid out compares with the amount quoted. A trade that
/// meets a ceiling above its own price is paid less than the quote. A trade
/// at or above the ceiling is paid at least the quote: its price was
/// rounded down, and the amount is worked out again from that price.
pub proof fn lemma_amount_against_quote(data: PoolData, slot: u64, t: Trade)
    requires
        data.traded(slot, t) is Ok,
    ensures
        ({
            let (next, moved) = data.traded(slot, t).unwrap();
            let ratio = limit_price(t.quote.deposit, t.quote.withdraw, data.precision).unwrap();
            if data.effective_price(slot, t.is_buying_x, ratio) > ratio {
                moved.withdraw < t.quote.withdraw
            } else {
                moved.withdraw >= t.quote.withdraw
            }
        }),
{
    let ratio = limit_price(t.quote.deposit, t.quote.withdraw, data.precision).unwrap();
    let price = data.effective_price(slot, t.is_buying_x, ratio);
    let total = scaled(t.quote.deposit, data.precision).unwrap();
    let quoted = t.quote.withdraw;
    let paid = total / price;
    assert(ratio == total / (quoted as u128));
    assert(ratio * quoted <= total < (ratio + 1) * quoted) by (nonlinear_arith)
        requires
            ratio == total / (quoted as u128),
            quoted > 0,
    ;
    assert(paid * price <= total < (paid + 1) * price) by (nonlinear_arith)
        requires
            paid == total / price,
            price > 0,
    ;
    if price > ratio {
        assert(paid < quoted) by (nonlinear_arith)
            requires
                paid * price <= total,
                total < (ratio + 1) * quoted,
                price >= ratio + 1,
                quoted > 0,
                paid >= 0,
        ;
    } else {
        assert(paid >= quoted) by (nonlinear_arith)
            requires
                total < (paid + 1) * price,
                price * quoted <= total,
                price > 0,
        ;
    }
}

/// Within a window no ceiling falls: a trade in the slot of the window
/// leaves a ceiling that was set at least as high as it was, and leaves the
/// ceiling of the other direction as it was.
pub proof fn lemma_ceilings_never_fall(data: PoolData, slot: u64, t: Trade, is_buying_x: bool)
    requires
        data.traded(slot, t) is Ok,
        slot == data.last_slot,
        data.ceiling(is_buying_x) is Some,
    ensures
        ({
            let next = data.traded(slot, t).unwrap().0;
            &&& next.ceiling(is_buying_x).unwrap() >= data.ceiling(is_buying_x).unwrap()
            &&& t.is_buying_x != is_buying_x ==> next.ceiling(is_buying_x) == data.ceiling(
                is_buying_x,
            )
        }),
{
}

/// Within one slot, the prices charged to the buyers of one asset never
/// fall from one trade to a later one, whatever the trades quote and in
/// whatever order the two directions alternate; and none is below a ceiling
/// that was set for that slot beforehand.
pub proof fn lemma_prices_charged_never_fall(
    data: PoolData,
    slot: u64,
    trades: Seq<Trade>,
    is_buying_x: bool,
)
    ensures
        forall|i: int, j: int|
            0 <= i <= j < data.prices_charged(slot, trades, is_buying_x).len()
                ==> data.prices_charged(slot, trades, is_buying_x)[i] <= data.prices_charged(
                slot,
                trades,
                is_buying_x,
            )[j],
        data.ceiling_at(slot, is_buying_x) matches Some(c) ==> forall|i: int|
            0 <= i < data.prices_charged(slot, trades, is_buying_x).len() ==> c
                <= #[trigger] data.prices_charged(slot, trades, is_buying_x)[i],
    decreases trades.len(),
{
    let all = data.prices_charged(slot, trades, is_buying_x);
    if trades.len() > 0 {
        let t = trades[0];
        let rest = trades.drop_first();
        match data.traded(slot, t) {
            Ok((next, _)) => {
                lemma_prices_charged_never_fall(next, slot, rest, is_buying_x);
                lemma_trade_sets_both_ceilings(data, slot, t);
                lemma_price_charged(data, slot, t);
                let tail = next.prices_charged(slot, rest, is_buying_x);
                let floor = next.ceiling(is_buying_x).unwrap();
                assert(next.ceiling_at(slot, is_buying_x) == Some(floor));
                assert forall|i: int| 0 <= i < tail.len() implies floor <= tail[i] by {}
                if data.ceiling_at(slot, is_buying_x) is Some {
                    lemma_ceilings_never_fall(data, slot, t, is_buying_x);
                    assert(data.ceiling_at(slot, is_buying_x).unwrap() <= floor);
                }
                if t.is_buying_x == is_buying_x {
                    assert(all == seq![floor] + tail);
                    assert(all.len() == tail.len() + 1);
                    assert(all[0] == floor);
                    assert forall|i: int| 1 <= i < all.len() implies all[i] == tail[i - 1] by {}
                    assert forall|i: int| 0 <= i < all.len() implies floor <= all[i] by {
                        if i > 0 {
                            assert(all[i] == tail[i - 1]);
                        }
                    }
                    assert forall|i: int, j: int| 0 <= i <= j < all.len() implies all[i]
                        <= all[j] by {
                        if i == 0 {
                            assert(floor <= all[j]);
                        } else {
                            assert(all[i] == tail[i - 1]);
                            assert(all[j] == tail[j - 1]);
                        }
                    }
                } else {
                    assert(all == tail);
                }
            },
            Err(_) => {
                lemma_prices_charged_never_fall(data, slot, rest, is_buying_x);
                assert(all == data.prices_charged(slot, rest, is_buying_x));
            },
        }
    } else {
        assert(all.len() == 0);
    }
}

} // verus!

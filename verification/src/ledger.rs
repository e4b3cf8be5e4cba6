//! The ledger: an append-only sequence of trades.

use crate::asset::{Asset, average_of, profit_over, total_amount, total_cost};
use crate::decimal::{Decimal, law_rounded_is_nearest, option_view};
use crate::stock::{Operation, Stock, StockTrade, TradeView};
use vstd::arithmetic::power::pow;
use vstd::prelude::*;

verus! {

/// An ordered, append-only collection of trades.
pub struct Ledger {
    trades: Vec<StockTrade>,
}

impl View for Ledger {
    type V = Seq<TradeView>;

    closed spec fn view(&self) -> Seq<TradeView> {
        self.trades@.map_values(|trade: StockTrade| trade@)
    }
}

impl Ledger {
    /// A ledger without trades.
    pub fn new() -> (r: Ledger)
        ensures
            r@ == Seq::<TradeView>::empty(),
    {
        Ledger { trades: Vec::new() }
    }

    /// A ledger that holds the given trades, in their order.
    pub fn from_trades(trades: Vec<StockTrade>) -> (r: Ledger)
        ensures
            r@ == trades@.map_values(|trade: StockTrade| trade@),
    {
        Ledger { trades }
    }

    /// The number of trades held.
    pub fn len(&self) -> (r: usize)
        ensures
            r == self@.len(),
    {
        self.trades.len()
    }

    /// Adds up the amounts of the trades in `stock` on the side `operation`.
    fn sum_amounts(&self, stock: &Stock, operation: Operation) -> (r: Option<Decimal>)
        ensures
            option_view(r) == total_amount(self@, stock@.ticker, operation),
    {
        let ghost ticker = stock@.ticker;
        let mut acc = Decimal::zero();
        let mut i: usize = 0;
        while i < self.trades.len()
            invariant
                i <= self.trades.len(),
                ticker == stock@.ticker,
                total_amount(self@.take(i as int), ticker, operation) == Some(acc@),
            decreases self.trades.len() - i,
        {
            let trade = &self.trades[i];
            proof {
                assert(self@.take(i + 1).drop_last() =~= self@.take(i as int));
            }
            if trade.stock().matches(stock) && trade.operation() == operation {
                let amount = trade.amount();
                proof {
                    use_type_invariant(&acc);
                    use_type_invariant(&amount);
                }
                match acc.checked_add(&amount) {
                    Some(next) => {
                        acc = next;
                    },
                    None => {
                        proof {
                            lemma_total_amount_stays_none(self@, i + 1, ticker, operation);
                        }
                        return None;
                    },
                }
            }
            i += 1;
        }
        assert(self@.take(i as int) =~= self@);
        Some(acc)
    }
}

/// A price to two fractional digits: rounded to the nearest, a tie going to
/// the even neighbour, so that 0.125 gives 0.12 and 0.135 gives 0.14. The
/// result is no further than half a hundredth from the price.
pub fn round_price(price: Decimal) -> (r: Decimal)
    ensures
        r@ == price@.rounded(2),
        r@.scale <= 2,
        -pow(10, 26) <= 2 * (r@.units() - price@.units()) <= pow(10, 26),
{
    proof {
        use_type_invariant(&price);
        law_rounded_is_nearest(price@, 2);
    }
    price.round_dp(2)
}

/// The average price from the two totals of the purchases: their quotient to
/// two fractional digits, or zero where the total amount is zero. `None`
/// where the quotient leaves the decimal range.
pub fn average(total_price: Decimal, total_amount: Decimal) -> (r: Option<Decimal>)
    ensures
        option_view(r) == average_of(total_price@, total_amount@),
{
    if total_amount.is_zero() {
        Some(Decimal::zero())
    } else {
        proof {
            use_type_invariant(&total_price);
            use_type_invariant(&total_amount);
        }
        match total_price.checked_div(&total_amount) {
            Some(q) => Some(round_price(q)),
            None => None,
        }
    }
}

/// The profit of selling `amount` units at `unit_sell_price` that were bought
/// at `average_unit_buy_price` each.
pub fn profit_at(average_unit_buy_price: Decimal, amount: Decimal, unit_sell_price: Decimal) -> (r:
    Option<Decimal>)
    ensures
        option_view(r) == profit_over(average_unit_buy_price@, amount@, unit_sell_price@),
{
    proof {
        use_type_invariant(&average_unit_buy_price);
        use_type_invariant(&amount);
        use_type_invariant(&unit_sell_price);
    }
    let buy_price = match average_unit_buy_price.checked_mul(&amount) {
        Some(p) => p,
        None => {
            return None;
        },
    };
    let sell_price = match unit_sell_price.checked_mul(&amount) {
        Some(p) => p,
        None => {
            return None;
        },
    };
    sell_price.checked_sub(&buy_price)
}

/// Once a prefix of the ledger has no total amount, the whole ledger has none.
proof fn lemma_total_amount_stays_none(
    trades: Seq<TradeView>,
    k: int,
    ticker: Seq<char>,
    operation: Operation,
)
    requires
        0 <= k <= trades.len(),
        total_amount(trades.take(k), ticker, operation) is None,
    ensures
        total_amount(trades, ticker, operation) is None,
    decreases trades.len() - k,
{
    if k == trades.len() {
        assert(trades.take(k) =~= trades);
    } else {
        assert(trades.take(k + 1).drop_last() =~= trades.take(k));
        lemma_total_amount_stays_none(trades, k + 1, ticker, operation);
    }
}

/// Once a prefix of the ledger has no total cost, the whole ledger has none.
proof fn lemma_total_cost_stays_none(trades: Seq<TradeView>, k: int, ticker: Seq<char>)
    requires
        0 <= k <= trades.len(),
        total_cost(trades.take(k), ticker) is None,
    ensures
        total_cost(trades, ticker) is None,
    decreases trades.len() - k,
{
    if k == trades.len() {
        assert(trades.take(k) =~= trades);
    } else {
        assert(trades.take(k + 1).drop_last() =~= trades.take(k));
        lemma_total_cost_stays_none(trades, k + 1, ticker);
    }
}

impl Asset for Ledger {
    open spec fn trades(&self) -> Seq<TradeView> {
        self@
    }

    fn add(&mut self, stock_trade: StockTrade) -> (r: &Self) {
        self.trades.push(stock_trade);
        self
    }

    fn calculate_average_price(&self, stock: &Stock) -> (r: Option<Decimal>) {
        let ghost ticker = stock@.ticker;
        let mut price_sum = Decimal::zero();
        let mut amount_sum = Decimal::zero();
        let mut i: usize = 0;
        while i < self.trades.len()
            invariant
                i <= self.trades.len(),
                ticker == stock@.ticker,
                total_cost(self@.take(i as int), ticker) == Some(price_sum@),
                total_amount(self@.take(i as int), ticker, Operation::Buy) == Some(amount_sum@),
            decreases self.trades.len() - i,
        {
            let trade = &self.trades[i];
            proof {
                assert(self@.take(i + 1).drop_last() =~= self@.take(i as int));
            }
            if trade.stock().matches(stock) && trade.operation() == Operation::Buy {
                let amount = trade.amount();
                let price = trade.price();
                proof {
                    use_type_invariant(&amount);
                    use_type_invariant(&price);
                    use_type_invariant(&price_sum);
                    use_type_invariant(&amount_sum);
                }
                let cost = match amount.checked_mul(&price) {
                    Some(cost) => cost,
                    None => {
                        proof {
                            lemma_total_cost_stays_none(self@, i + 1, ticker);
                        }
                        return None;
                    },
                };
                match price_sum.checked_add(&cost) {
                    Some(next) => {
                        price_sum = next;
                    },
                    None => {
                        proof {
                            lemma_total_cost_stays_none(self@, i + 1, ticker);
                        }
                        return None;
                    },
                }
                match amount_sum.checked_add(&amount) {
                    Some(next) => {
                        amount_sum = next;
                    },
                    None => {
                        proof {
                            lemma_total_amount_stays_none(self@, i + 1, ticker, Operation::Buy);
                        }
                        return None;
                    },
                }
            }
            i += 1;
        }
        assert(self@.take(i as int) =~= self@);
        average(price_sum, amount_sum)
    }

    fn available(&self, stock: Stock) -> (r: Option<Decimal>) {
        let buy_trades_amount = match self.sum_amounts(&stock, Operation::Buy) {
            Some(total) => total,
            None => {
                return None;
            },
        };
        let sell_trades_amount = match self.sum_amounts(&stock, Operation::Sell) {
            Some(total) => total,
            None => {
                return None;
            },
        };
        proof {
            use_type_invariant(&buy_trades_amount);
            use_type_invariant(&sell_trades_amount);
        }
        buy_trades_amount.checked_sub(&sell_trades_amount)
    }

    fn calculate_profit(&self, stock: Stock, amount: Decimal, unit_sell_price: Decimal) -> (r:
        Option<Decimal>) {
        match self.calculate_average_price(&stock) {
            Some(average_unit_buy_price) => profit_at(
                average_unit_buy_price,
                amount,
                unit_sell_price,
            ),
            None => None,
        }
    }
}

} // verus!

//! What a ledger of trades answers, stated over the sequence of its trades.

use crate::decimal::{Decimal, DecimalView, option_view};
use crate::stock::{Operation, Stock, StockTrade, TradeView};
use vstd::prelude::*;

verus! {

/// Whether a trade counts towards the position in `ticker` on the side
/// `operation`. Only the ticker identifies the position.
pub open spec fn selects(trade: TradeView, ticker: Seq<char>, operation: Operation) -> bool {
    trade.stock.ticker == ticker && trade.operation == operation
}

/// The amounts of the selected trades, added one by one from zero in the
/// order of the ledger. `None` once an addition leaves the decimal range.
pub open spec fn total_amount(
    trades: Seq<TradeView>,
    ticker: Seq<char>,
    operation: Operation,
) -> Option<DecimalView>
    decreases trades.len(),
{
    if trades.len() == 0 {
        Some(DecimalView::zero())
    } else {
        let earlier = total_amount(trades.drop_last(), ticker, operation);
        let trade = trades.last();
        if selects(trade, ticker, operation) {
            match earlier {
                Some(acc) => acc.sum(trade.amount),
                None => None,
            }
        } else {
            earlier
        }
    }
}

/// What the bought units of `ticker` cost: `amount * price` of each purchase,
/// added one by one from zero in the order of the ledger. `None` once a
/// product or a sum leaves the decimal range.
pub open spec fn total_cost(trades: Seq<TradeView>, ticker: Seq<char>) -> Option<DecimalView>
    decreases trades.len(),
{
    if trades.len() == 0 {
        Some(DecimalView::zero())
    } else {
        let earlier = total_cost(trades.drop_last(), ticker);
        let trade = trades.last();
        if selects(trade, ticker, Operation::Buy) {
            match (earlier, trade.amount.product(trade.price)) {
                (Some(acc), Some(cost)) => acc.sum(cost),
                _ => None,
            }
        } else {
            earlier
        }
    }
}

/// The average of a total cost over a total amount, to two fractional digits;
/// zero where nothing was bought.
pub open spec fn average_of(cost: DecimalView, amount: DecimalView) -> Option<DecimalView> {
    if amount.is_zero() {
        Some(DecimalView::zero())
    } else {
        match cost.quotient(amount) {
            Some(q) => Some(q.rounded(2)),
            None => None,
        }
    }
}

/// The weighted average price paid for a unit of `ticker`. Sales play no part.
pub open spec fn average_price(trades: Seq<TradeView>, ticker: Seq<char>) -> Option<DecimalView> {
    match (total_cost(trades, ticker), total_amount(trades, ticker, Operation::Buy)) {
        (Some(cost), Some(amount)) => average_of(cost, amount),
        _ => None,
    }
}

/// The units of `ticker` held: bought less sold. Negative for a short position.
pub open spec fn available_amount(trades: Seq<TradeView>, ticker: Seq<char>) -> Option<
    DecimalView,
> {
    match (
        total_amount(trades, ticker, Operation::Buy),
        total_amount(trades, ticker, Operation::Sell),
    ) {
        (Some(bought), Some(sold)) => bought.difference(sold),
        _ => None,
    }
}

/// What selling `amount` units at `unit_sell_price` brings over an average
/// purchase price of `average`.
pub open spec fn profit_over(
    average: DecimalView,
    amount: DecimalView,
    unit_sell_price: DecimalView,
) -> Option<DecimalView> {
    match (average.product(amount), unit_sell_price.product(amount)) {
        (Some(buy_price), Some(sell_price)) => sell_price.difference(buy_price),
        _ => None,
    }
}

/// The profit of selling `amount` units of `ticker` at `unit_sell_price`, over
/// their average purchase price. The amount is not held against what is
/// available.
pub open spec fn profit(
    trades: Seq<TradeView>,
    ticker: Seq<char>,
    amount: DecimalView,
    unit_sell_price: DecimalView,
) -> Option<DecimalView> {
    match average_price(trades, ticker) {
        Some(average) => profit_over(average, amount, unit_sell_price),
        None => None,
    }
}

/// A holding of trades that can be added to and asked for its figures.
///
/// Every figure is `None` exactly where the decimal arithmetic behind it
/// leaves its range.
pub trait Asset {
    /// The trades held, oldest first.
    spec fn trades(&self) -> Seq<TradeView>;

    /// Appends a trade after those already held and hands the holding back.
    /// Nothing about the trade is checked: a negative or zero amount or price
    /// is taken as it is.
    fn add(&mut self, stock_trade: StockTrade) -> (r: &Self)
        ensures
            final(self).trades() == old(self).trades().push(stock_trade@),
            r.trades() == final(self).trades(),
    ;

    /// The weighted average price paid for a unit of `stock`: the cost of all
    /// its purchases over the amount bought, to two fractional digits, a tie
    /// rounding to the even neighbour. Zero where the amount bought is zero.
    fn calculate_average_price(&self, stock: &Stock) -> (r: Option<Decimal>)
        ensures
            option_view(r) == average_price(self.trades(), stock@.ticker),
    ;

    /// The units of `stock` held: the amount bought less the amount sold,
    /// unrounded. Negative where more was sold than bought.
    fn available(&self, stock: Stock) -> (r: Option<Decimal>)
        ensures
            option_view(r) == available_amount(self.trades(), stock@.ticker),
    ;

    /// What selling `amount` units of `stock` at `unit_sell_price` would bring
    /// over their average purchase price. A question only: the holding stays
    /// as it is, and the amount may exceed what is available.
    fn calculate_profit(&self, stock: Stock, amount: Decimal, unit_sell_price: Decimal) -> (r:
        Option<Decimal>)
        ensures
            option_view(r) == profit(self.trades(), stock@.ticker, amount@, unit_sell_price@),
    ;
}

} // verus!

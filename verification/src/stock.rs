//! Stocks and the trades made in them.

use crate::decimal::{Decimal, DecimalView};
use vstd::prelude::*;

verus! {

/// A point in time on the UTC time line: whole seconds since the Unix epoch
/// and the nanoseconds into that second.
#[derive(Clone, Copy, Debug, PartialEq, Eq, Structural)]
pub struct Timestamp {
    pub seconds: i64,
    pub nanoseconds: u32,
}

/// The direction of a trade.
#[derive(Clone, Copy, Debug, PartialEq, Eq, Structural)]
pub enum Operation {
    Buy,
    Sell,
}

/// What a [`Stock`] is in contracts: its two strings as sequences of characters.
pub struct StockView {
    pub ticker: Seq<char>,
    pub name: Seq<char>,
}

/// A tradable instrument, identified by its ticker.
#[derive(Debug)]
pub struct Stock {
    ticker: String,
    name: String,
}

impl View for Stock {
    type V = StockView;

    closed spec fn view(&self) -> StockView {
        StockView { ticker: self.ticker@, name: self.name@ }
    }
}

impl Clone for Stock {
    fn clone(&self) -> (r: Stock)
        ensures
            r@ == self@,
    {
        Stock { ticker: self.ticker.clone(), name: self.name.clone() }
    }
}

impl Stock {
    /// The stock with the given ticker and display name.
    pub fn new(ticker: String, name: String) -> (r: Stock)
        ensures
            r@ == (StockView { ticker: ticker@, name: name@ }),
    {
        Stock { ticker, name }
    }

    /// The short identifier of the stock.
    pub fn ticker(&self) -> (r: &String)
        ensures
            r@ == self@.ticker,
    {
        &self.ticker
    }

    /// The display name of the stock.
    pub fn name(&self) -> (r: &String)
        ensures
            r@ == self@.name,
    {
        &self.name
    }

    /// The price quoted for the stock: 14.5.
    pub fn get_current_price(&self) -> (r: Decimal)
        ensures
            r@ == (DecimalView { mantissa: 145, scale: 1 }),
    {
        Decimal::new(145, 1)
    }

    /// Whether two stocks are the same position: their tickers are equal,
    /// character for character. The names play no part.
    pub fn matches(&self, other: &Stock) -> (r: bool)
        ensures
            r == (self@.ticker == other@.ticker),
    {
        self.ticker == other.ticker
    }
}

/// What a [`StockTrade`] is in contracts.
pub struct TradeView {
    pub stock: StockView,
    pub price: DecimalView,
    pub amount: DecimalView,
    pub operation: Operation,
    pub date: Timestamp,
}

/// One executed trade.
#[derive(Debug)]
pub struct StockTrade {
    stock: Stock,
    price: Decimal,
    amount: Decimal,
    operation: Operation,
    date: Timestamp,
}

impl View for StockTrade {
    type V = TradeView;

    closed spec fn view(&self) -> TradeView {
        TradeView {
            stock: self.stock@,
            price: self.price@,
            amount: self.amount@,
            operation: self.operation,
            date: self.date,
        }
    }
}

impl Clone for StockTrade {
    fn clone(&self) -> (r: StockTrade)
        ensures
            r@ == self@,
    {
        StockTrade {
            stock: self.stock.clone(),
            price: self.price,
            amount: self.amount,
            operation: self.operation,
            date: self.date,
        }
    }
}

impl StockTrade {
    /// The trade of `amount` units of `stock` at `price` a unit, made at `date`.
    pub fn new(
        stock: Stock,
        price: Decimal,
        amount: Decimal,
        operation: Operation,
        date: Timestamp,
    ) -> (r: StockTrade)
        ensures
            r@ == (TradeView { stock: stock@, price: price@, amount: amount@, operation, date }),
    {
        StockTrade { stock, price, amount, operation, date }
    }

    /// The stock traded.
    pub fn stock(&self) -> (r: &Stock)
        ensures
            r@ == self@.stock,
    {
        &self.stock
    }

    /// The price of one unit.
    pub fn price(&self) -> (r: Decimal)
        ensures
            r@ == self@.price,
    {
        self.price
    }

    /// The number of units traded.
    pub fn amount(&self) -> (r: Decimal)
        ensures
            r@ == self@.amount,
    {
        self.amount
    }

    /// Whether the units were bought or sold.
    pub fn operation(&self) -> (r: Operation)
        ensures
            r == self@.operation,
    {
        self.operation
    }

    /// When the trade was made.
    pub fn date(&self) -> (r: Timestamp)
        ensures
            r == self@.date,
    {
        self.date
    }
}

} // verus!

//! What holds of every ledger.

use crate::asset::{
    Asset, available_amount, average_price, profit, profit_over, selects, total_amount, total_cost,
};
use crate::decimal::{
    Decimal, DecimalView, MAX_SCALE, law_exact_difference_is_the_difference,
    law_exact_product_is_the_product, lemma_view_is_faithful, lemma_zero_at_any_scale,
    option_view,
};
use crate::exact::{
    Term, amount_term, cost_term, finest_scale, has_weight, lemma_adds_up_permutes,
    lemma_costs_follow_amounts, lemma_running_total_adds_up, lemma_running_total_units,
    lemma_total_amount_runs, lemma_total_cost_runs, lemma_without_weight, needs_no_rounding,
    plain_total, units_total,
};
use vstd::arithmetic::div_mod::{lemma_div_multiples_vanish, lemma_mod_multiples_basic};
use crate::stock::{Operation, Stock, TradeView};
use vstd::arithmetic::power::pow;
use vstd::prelude::*;
use vstd::seq_lib::group_to_multiset_ensures;

verus! {

/// Two optional decimals denote the same number, or are both absent.
pub open spec fn same_number(a: Option<DecimalView>, b: Option<DecimalView>) -> bool {
    match (a, b) {
        (Some(x), Some(y)) => x.units() == y.units(),
        (None, None) => true,
        _ => false,
    }
}

/// The trades of a ledger that are in `ticker`, in their order.
pub open spec fn position(trades: Seq<TradeView>, ticker: Seq<char>) -> Seq<TradeView> {
    trades.filter(|trade: TradeView| trade.stock.ticker == ticker)
}

/// Asking a holding twice for the same figure, with nothing added in
/// between, gives the same answer: whatever two calls on the same holding
/// with the same arguments return, it is the same decimal or twice none.
pub proof fn law_reads_repeat<A: Asset>(
    holding: &A,
    stock: Stock,
    amount: Decimal,
    unit_sell_price: Decimal,
    first: Option<Decimal>,
    second: Option<Decimal>,
)
    ensures
        call_ensures(A::calculate_average_price, (holding, &stock), first) && call_ensures(
            A::calculate_average_price,
            (holding, &stock),
            second,
        ) ==> first == second,
        call_ensures(A::available, (holding, stock), first) && call_ensures(
            A::available,
            (holding, stock),
            second,
        ) ==> first == second,
        call_ensures(A::calculate_profit, (holding, stock, amount, unit_sell_price), first)
            && call_ensures(
            A::calculate_profit,
            (holding, stock, amount, unit_sell_price),
            second,
        ) ==> first == second,
{
    if option_view(first) == option_view(second) {
        lemma_view_is_faithful(first, second);
    }
}

/// On a ledger without trades the average price is zero, nothing is
/// available, and the profit of a sale is the whole sale price.
pub proof fn law_empty_ledger(
    ticker: Seq<char>,
    amount: DecimalView,
    unit_sell_price: DecimalView,
)
    ensures
        average_price(Seq::empty(), ticker) == Some(DecimalView::zero()),
        available_amount(Seq::empty(), ticker) == Some(DecimalView::zero()),
        same_number(
            profit(Seq::empty(), ticker, amount, unit_sell_price),
            unit_sell_price.product(amount),
        ),
{
}

/// Where no purchase of `ticker` is on the ledger, its average price is zero,
/// whatever was sold and whatever was traded in other stocks.
pub proof fn law_no_purchase_no_price(trades: Seq<TradeView>, ticker: Seq<char>)
    requires
        forall|i: int|
            0 <= i < trades.len() ==> !selects(#[trigger] trades[i], ticker, Operation::Buy),
    ensures
        total_cost(trades, ticker) == Some(DecimalView::zero()),
        total_amount(trades, ticker, Operation::Buy) == Some(DecimalView::zero()),
        average_price(trades, ticker) == Some(DecimalView::zero()),
    decreases trades.len(),
{
    if trades.len() > 0 {
        law_no_purchase_no_price(trades.drop_last(), ticker);
    }
}

/// Every figure of `ticker` is that of the ledger's trades in `ticker` alone:
/// a trade in another ticker changes none of them, whatever its name.
pub proof fn law_other_tickers_play_no_part(
    trades: Seq<TradeView>,
    ticker: Seq<char>,
    amount: DecimalView,
    unit_sell_price: DecimalView,
)
    ensures
        average_price(trades, ticker) == average_price(position(trades, ticker), ticker),
        available_amount(trades, ticker) == available_amount(position(trades, ticker), ticker),
        profit(trades, ticker, amount, unit_sell_price) == profit(
            position(trades, ticker),
            ticker,
            amount,
            unit_sell_price,
        ),
{
    lemma_totals_of_position(trades, ticker);
}

/// A trade in another ticker changes no figure of `ticker`.
pub proof fn law_foreign_trade_changes_nothing(
    trades: Seq<TradeView>,
    trade: TradeView,
    ticker: Seq<char>,
    amount: DecimalView,
    unit_sell_price: DecimalView,
)
    requires
        trade.stock.ticker != ticker,
    ensures
        average_price(trades.push(trade), ticker) == average_price(trades, ticker),
        available_amount(trades.push(trade), ticker) == available_amount(trades, ticker),
        profit(trades.push(trade), ticker, amount, unit_sell_price) == profit(
            trades,
            ticker,
            amount,
            unit_sell_price,
        ),
{
    assert(trades.push(trade).drop_last() =~= trades);
}

/// The totals of `ticker` are those of its position.
proof fn lemma_totals_of_position(trades: Seq<TradeView>, ticker: Seq<char>)
    ensures
        total_cost(trades, ticker) == total_cost(position(trades, ticker), ticker),
        total_amount(trades, ticker, Operation::Buy) == total_amount(
            position(trades, ticker),
            ticker,
            Operation::Buy,
        ),
        total_amount(trades, ticker, Operation::Sell) == total_amount(
            position(trades, ticker),
            ticker,
            Operation::Sell,
        ),
    decreases trades.len(),
{
    reveal(Seq::filter);
    if trades.len() > 0 {
        let earlier = trades.drop_last();
        lemma_totals_of_position(earlier, ticker);
        if trades.last().stock.ticker == ticker {
            assert(position(trades, ticker).drop_last() =~= position(earlier, ticker));
        }
    }
}

/// The decimal is the plain sum of the terms: its mantissa is their sum at
/// their finest scale, and unless it is zero that is its scale.
pub open spec fn is_plain_total(total: DecimalView, trades: Seq<TradeView>, term: Term) -> bool {
    &&& total.mantissa == plain_total(trades, term)
    &&& total.is_zero() || total.scale == finest_scale(trades, term)
}

/// Where a position needs no rounding, each of its totals is the plain sum
/// of its terms, written at the finest scale among those that are not zero.
pub proof fn law_totals_are_plain_sums(trades: Seq<TradeView>, ticker: Seq<char>)
    requires
        needs_no_rounding(trades, ticker),
    ensures
        total_amount(trades, ticker, Operation::Buy) matches Some(bought) && is_plain_total(
            bought,
            trades,
            amount_term(ticker, Operation::Buy),
        ),
        total_amount(trades, ticker, Operation::Sell) matches Some(sold) && is_plain_total(
            sold,
            trades,
            amount_term(ticker, Operation::Sell),
        ),
        total_cost(trades, ticker) matches Some(cost) && is_plain_total(
            cost,
            trades,
            cost_term(ticker),
        ),
{
    lemma_total_amount_runs(trades, ticker, Operation::Buy);
    lemma_total_amount_runs(trades, ticker, Operation::Sell);
    lemma_total_cost_runs(trades, ticker);
    lemma_running_total_adds_up(trades, amount_term(ticker, Operation::Buy));
    lemma_running_total_adds_up(trades, amount_term(ticker, Operation::Sell));
    lemma_running_total_adds_up(trades, cost_term(ticker));
}

/// The order in which the trades of a position were entered plays no part
/// in its figures, where the position needs no rounding: the average price
/// and the profit of a sale are the same decimal either way, and what is
/// available is the same number.
pub proof fn law_order_plays_no_part(
    first: Seq<TradeView>,
    second: Seq<TradeView>,
    ticker: Seq<char>,
    amount: DecimalView,
    unit_sell_price: DecimalView,
)
    requires
        first.to_multiset() == second.to_multiset(),
        needs_no_rounding(first, ticker),
    ensures
        needs_no_rounding(second, ticker),
        average_price(first, ticker) == average_price(second, ticker),
        same_number(available_amount(first, ticker), available_amount(second, ticker)),
        profit(first, ticker, amount, unit_sell_price) == profit(
            second,
            ticker,
            amount,
            unit_sell_price,
        ),
{
    broadcast use group_to_multiset_ensures;

    let buys = amount_term(ticker, Operation::Buy);
    let sells = amount_term(ticker, Operation::Sell);
    let costs = cost_term(ticker);
    lemma_adds_up_permutes(first, second, buys);
    lemma_adds_up_permutes(first, second, sells);
    lemma_adds_up_permutes(first, second, costs);
    assert forall|i: int|
        0 <= i < second.len() && selects(
            #[trigger] second[i],
            ticker,
            Operation::Buy,
        ) implies second[i].amount.product_is_exact(second[i].price) by {
        assert(second.to_multiset().count(second[i]) > 0);
    }
    law_totals_are_plain_sums(first, ticker);
    law_totals_are_plain_sums(second, ticker);
    let sold_first = total_amount(first, ticker, Operation::Sell)->0;
    let sold_second = total_amount(second, ticker, Operation::Sell)->0;
    if sold_first.is_zero() {
        lemma_zero_at_any_scale(sold_first.negated(), MAX_SCALE as nat);
        lemma_zero_at_any_scale(sold_second.negated(), MAX_SCALE as nat);
    }
}

/// Where every purchase of a position was made at the same price, that price
/// to two fractional digits is its average price: as long as something was
/// bought, the price is not zero, and the position needs no rounding.
pub proof fn law_one_price_is_the_average(
    trades: Seq<TradeView>,
    ticker: Seq<char>,
    price: DecimalView,
)
    requires
        needs_no_rounding(trades, ticker),
        !price.is_zero(),
        forall|i: int|
            0 <= i < trades.len() && selects(#[trigger] trades[i], ticker, Operation::Buy)
                ==> trades[i].price == price,
        plain_total(trades, amount_term(ticker, Operation::Buy)) != 0,
    ensures
        average_price(trades, ticker) == Some(price.rounded(2)),
{
    let buys = amount_term(ticker, Operation::Buy);
    let fine = finest_scale(trades, buys);
    law_totals_are_plain_sums(trades, ticker);
    lemma_running_total_adds_up(trades, buys);
    if !has_weight(trades, buys) {
        lemma_without_weight(trades, buys, fine);
    }
    lemma_costs_follow_amounts(trades, ticker, price, fine);
    let bought = total_amount(trades, ticker, Operation::Buy)->0;
    let m = price.mantissa;
    let n = bought.mantissa;
    assert(m * n != 0) by (nonlinear_arith)
        requires
            m != 0,
            n != 0,
    ;
    lemma_mod_multiples_basic(m, n);
    lemma_div_multiples_vanish(m, n);
}

/// What is available is the amount bought less the amount sold, where the
/// position needs no rounding and the two totals can be subtracted exactly.
/// Amounts are counted in units of `10^-28`.
pub proof fn law_available_is_bought_less_sold(trades: Seq<TradeView>, ticker: Seq<char>)
    requires
        needs_no_rounding(trades, ticker),
        forall|i: int|
            0 <= i < trades.len() && (#[trigger] trades[i]).stock.ticker == ticker
                ==> trades[i].amount.wf(),
        total_amount(trades, ticker, Operation::Buy) matches Some(bought) && total_amount(
            trades,
            ticker,
            Operation::Sell,
        ) matches Some(sold) && bought.difference_is_exact(sold),
    ensures
        available_amount(trades, ticker) matches Some(r) && r.wf() && r.units() == units_total(
            trades,
            amount_term(ticker, Operation::Buy),
        ) - units_total(trades, amount_term(ticker, Operation::Sell)),
{
    let buys = amount_term(ticker, Operation::Buy);
    let sells = amount_term(ticker, Operation::Sell);
    lemma_total_amount_runs(trades, ticker, Operation::Buy);
    lemma_total_amount_runs(trades, ticker, Operation::Sell);
    lemma_running_total_units(trades, buys);
    lemma_running_total_units(trades, sells);
    let bought = total_amount(trades, ticker, Operation::Buy)->0;
    let sold = total_amount(trades, ticker, Operation::Sell)->0;
    law_exact_difference_is_the_difference(bought, sold);
}

/// The profit of a sale is the sale price less the purchase price, where the
/// two products and their difference are exact. Counted in units of
/// `10^-28`, a product of two counts is `10^28` times the count of the
/// product.
pub proof fn law_profit_is_sale_less_purchase(
    average: DecimalView,
    amount: DecimalView,
    unit_sell_price: DecimalView,
)
    requires
        average.wf(),
        amount.wf(),
        unit_sell_price.wf(),
        average.product_is_exact(amount),
        unit_sell_price.product_is_exact(amount),
        unit_sell_price.exact_product(amount).difference_is_exact(average.exact_product(amount)),
    ensures
        profit_over(average, amount, unit_sell_price) matches Some(r) && r.wf() && r.units() * pow(
            10,
            MAX_SCALE as nat,
        ) == unit_sell_price.units() * amount.units() - average.units() * amount.units(),
{
    let buy_price = average.exact_product(amount);
    let sell_price = unit_sell_price.exact_product(amount);
    law_exact_product_is_the_product(average, amount);
    law_exact_product_is_the_product(unit_sell_price, amount);
    law_exact_difference_is_the_difference(sell_price, buy_price);
    let whole = pow(10, MAX_SCALE as nat);
    assert((sell_price.units() - buy_price.units()) * whole == sell_price.units() * whole
        - buy_price.units() * whole) by (nonlinear_arith);
}

} // verus!

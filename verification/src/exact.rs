//! Totals that need no rounding.
//!
//! A running total of decimals that are not negative is the plain sum of its
//! terms, written at the finest scale among them, as long as that sum fits in
//! a mantissa. Such a total does not depend on the order of its terms.

use crate::asset::{selects, total_amount, total_cost};
use crate::decimal::{
    DecimalView, MAX_MANTISSA, MAX_SCALE, lemma_at_scale_moves, lemma_zero_at_any_scale,
};
use crate::stock::{Operation, TradeView};
use vstd::arithmetic::power::{lemma_pow0, lemma_pow_positive, pow};
use vstd::prelude::*;
use vstd::seq_lib::{group_to_multiset_ensures, lemma_fold_left_permutation};

verus! {

/// What a trade adds to a total, if it counts towards it at all.
pub type Term = spec_fn(TradeView) -> Option<DecimalView>;

/// The amount of a trade in `ticker` on the side `operation`.
pub open spec fn amount_term(ticker: Seq<char>, operation: Operation) -> Term {
    |trade: TradeView|
        if selects(trade, ticker, operation) {
            Some(trade.amount)
        } else {
            None
        }
}

/// The cost of a purchase in `ticker`, `amount * price`, mantissas multiplied
/// and scales added.
pub open spec fn cost_term(ticker: Seq<char>) -> Term {
    |trade: TradeView|
        if selects(trade, ticker, Operation::Buy) {
            Some(trade.amount.exact_product(trade.price))
        } else {
            None
        }
}

/// The terms of the trades, added one by one from zero in their order.
pub open spec fn running_total(trades: Seq<TradeView>, term: Term) -> Option<DecimalView>
    decreases trades.len(),
{
    if trades.len() == 0 {
        Some(DecimalView::zero())
    } else {
        let earlier = running_total(trades.drop_last(), term);
        match term(trades.last()) {
            Some(x) => match earlier {
                Some(acc) => acc.sum(x),
                None => None,
            },
            None => earlier,
        }
    }
}

/// The finest scale among the terms that are not zero; 0 if there is none.
pub open spec fn finest_scale(trades: Seq<TradeView>, term: Term) -> nat {
    trades.fold_left(
        0nat,
        |finest: nat, trade: TradeView|
            match term(trade) {
                Some(x) => if !x.is_zero() && x.scale > finest {
                    x.scale
                } else {
                    finest
                },
                None => finest,
            },
    )
}

/// The sum of the mantissas that the terms have at `scale`.
pub open spec fn scaled_total(trades: Seq<TradeView>, term: Term, scale: nat) -> int {
    trades.fold_left(
        0int,
        |total: int, trade: TradeView|
            match term(trade) {
                Some(x) => total + x.at_scale(scale),
                None => total,
            },
    )
}

/// The sum of the terms, counted in units of `10^-28`.
pub open spec fn units_total(trades: Seq<TradeView>, term: Term) -> int {
    scaled_total(trades, term, MAX_SCALE as nat)
}

/// The sum of the terms as a mantissa at their finest scale.
pub open spec fn plain_total(trades: Seq<TradeView>, term: Term) -> int {
    scaled_total(trades, term, finest_scale(trades, term))
}

/// No term is negative, and their sum at the finest scale among them fits in
/// a mantissa.
pub open spec fn adds_up(trades: Seq<TradeView>, term: Term) -> bool {
    &&& forall|i: int|
        0 <= i < trades.len() ==> (#[trigger] term(trades[i]) matches Some(x) ==> x.mantissa >= 0)
    &&& plain_total(trades, term) <= MAX_MANTISSA
}

/// The position in `ticker` needs no rounding: the cost of each purchase is
/// exact, no amount and no cost is negative, and the amounts bought, the
/// amounts sold and the costs each add up within a mantissa.
pub open spec fn needs_no_rounding(trades: Seq<TradeView>, ticker: Seq<char>) -> bool {
    &&& forall|i: int|
        0 <= i < trades.len() && selects(#[trigger] trades[i], ticker, Operation::Buy)
            ==> trades[i].amount.product_is_exact(trades[i].price)
    &&& adds_up(trades, amount_term(ticker, Operation::Buy))
    &&& adds_up(trades, amount_term(ticker, Operation::Sell))
    &&& adds_up(trades, cost_term(ticker))
}

/// A total of terms that are not negative is not negative, and is zero only
/// if every term is zero; the finest scale is then 0.
proof fn lemma_total_sign(trades: Seq<TradeView>, term: Term, scale: nat)
    requires
        forall|i: int|
            0 <= i < trades.len() ==> (#[trigger] term(trades[i]) matches Some(x) ==> x.mantissa
                >= 0),
    ensures
        scaled_total(trades, term, scale) >= 0,
        scaled_total(trades, term, scale) == 0 ==> finest_scale(trades, term) == 0,
        scaled_total(trades, term, scale) == 0 ==> forall|i: int|
            0 <= i < trades.len() ==> (#[trigger] term(trades[i]) matches Some(x) ==> x.is_zero()),
    decreases trades.len(),
{
    if trades.len() > 0 {
        let earlier = trades.drop_last();
        lemma_total_sign(earlier, term, scale);
        if let Some(x) = term(trades.last()) {
            lemma_pow_positive(10, (scale - x.scale) as nat);
            let p = pow(10, (scale - x.scale) as nat);
            assert(x.mantissa >= 0 && p > 0 ==> x.mantissa * p >= 0 && (x.mantissa * p == 0
                ==> x.mantissa == 0)) by (nonlinear_arith);
        }
        if scaled_total(trades, term, scale) == 0 {
            assert forall|i: int| 0 <= i < trades.len() implies (#[trigger] term(
                trades[i],
            ) matches Some(x) ==> x.is_zero()) by {
                if i < trades.len() - 1 {
                    assert(earlier[i] == trades[i]);
                }
            }
        }
    }
}

/// A total at a finer scale is the total at a coarser one, moved there.
proof fn lemma_scaled_total_moves(trades: Seq<TradeView>, term: Term, s1: nat, s2: nat)
    requires
        finest_scale(trades, term) <= s1 <= s2,
    ensures
        scaled_total(trades, term, s2) == scaled_total(trades, term, s1) * pow(
            10,
            (s2 - s1) as nat,
        ),
    decreases trades.len(),
{
    let p = pow(10, (s2 - s1) as nat);
    if trades.len() > 0 {
        let earlier = trades.drop_last();
        lemma_scaled_total_moves(earlier, term, s1, s2);
        if let Some(x) = term(trades.last()) {
            let t1 = scaled_total(earlier, term, s1);
            if x.is_zero() {
                assert(0 * p == 0) by (nonlinear_arith);
            } else {
                lemma_at_scale_moves(x, s1, s2);
            }
            assert((t1 + x.at_scale(s1)) * p == t1 * p + x.at_scale(s1) * p) by (nonlinear_arith);
        }
    }
}

/// The terms up to the last add up if all of them do.
proof fn lemma_adds_up_earlier(trades: Seq<TradeView>, term: Term)
    requires
        trades.len() > 0,
        adds_up(trades, term),
    ensures
        adds_up(trades.drop_last(), term),
        plain_total(trades.drop_last(), term) <= scaled_total(
            trades.drop_last(),
            term,
            finest_scale(trades, term),
        ) <= plain_total(trades, term),
{
    let earlier = trades.drop_last();
    let fine = finest_scale(trades, term);
    let coarse = finest_scale(earlier, term);
    lemma_scaled_total_moves(earlier, term, coarse, fine);
    lemma_total_sign(earlier, term, coarse);
    lemma_pow_positive(10, (fine - coarse) as nat);
    let p = pow(10, (fine - coarse) as nat);
    let t = scaled_total(earlier, term, coarse);
    assert(t >= 0 && p > 0 ==> t <= t * p) by (nonlinear_arith);
    if let Some(x) = term(trades.last()) {
        lemma_pow_positive(10, (fine - x.scale) as nat);
    }
}

/// A running total that adds up is the plain sum of its terms at their finest
/// scale.
pub proof fn lemma_running_total_adds_up(trades: Seq<TradeView>, term: Term)
    requires
        adds_up(trades, term),
    ensures
        running_total(trades, term) matches Some(r) && r.mantissa == plain_total(trades, term) && (
        r.is_zero() || r.scale == finest_scale(trades, term)),
        plain_total(trades, term) >= 0,
    decreases trades.len(),
{
    if trades.len() > 0 {
        let earlier = trades.drop_last();
        let fine = finest_scale(trades, term);
        let coarse = finest_scale(earlier, term);
        lemma_adds_up_earlier(trades, term);
        lemma_running_total_adds_up(earlier, term);
        lemma_total_sign(earlier, term, fine);
        let acc = running_total(earlier, term)->0;
        if let Some(x) = term(trades.last()) {
            if x.is_zero() {
                lemma_zero_at_any_scale(x, fine);
            } else if acc.is_zero() {
                lemma_scaled_total_moves(earlier, term, coarse, fine);
                let p = pow(10, (fine - coarse) as nat);
                assert(0 * p == 0) by (nonlinear_arith);
                lemma_pow0(10);
            } else {
                lemma_scaled_total_moves(earlier, term, coarse, fine);
            }
        }
    }
}

/// A running total that adds up denotes the sum of its terms.
pub proof fn lemma_running_total_units(trades: Seq<TradeView>, term: Term)
    requires
        adds_up(trades, term),
        forall|i: int|
            0 <= i < trades.len() ==> (#[trigger] term(trades[i]) matches Some(x) ==> x.wf()),
    ensures
        running_total(trades, term) matches Some(r) && r.wf() && r.units() == units_total(
            trades,
            term,
        ),
{
    let top = MAX_SCALE as nat;
    let fine = finest_scale(trades, term);
    lemma_running_total_adds_up(trades, term);
    lemma_finest_at_most(trades, term, top);
    lemma_total_sign(trades, term, fine);
    lemma_scaled_total_moves(trades, term, fine, top);
    let r = running_total(trades, term)->0;
    if r.is_zero() {
        let p = pow(10, (top - fine) as nat);
        assert(0 * p == 0) by (nonlinear_arith);
        lemma_all_zero_stays_in_scale(trades, term);
    }
}

/// The finest scale is no finer than a bound on the scales of the terms.
proof fn lemma_finest_at_most(trades: Seq<TradeView>, term: Term, bound: nat)
    requires
        forall|i: int|
            0 <= i < trades.len() ==> (#[trigger] term(trades[i]) matches Some(x) ==> x.scale
                <= bound),
    ensures
        finest_scale(trades, term) <= bound,
    decreases trades.len(),
{
    if trades.len() > 0 {
        lemma_finest_at_most(trades.drop_last(), term, bound);
    }
}

/// A running total of zeros has the scale of one of them, or scale 0.
proof fn lemma_all_zero_stays_in_scale(trades: Seq<TradeView>, term: Term)
    requires
        forall|i: int|
            0 <= i < trades.len() ==> (#[trigger] term(trades[i]) matches Some(x) ==> x.wf()
                && x.is_zero()),
    ensures
        running_total(trades, term) matches Some(r) && r.wf() && r.is_zero(),
    decreases trades.len(),
{
    if trades.len() > 0 {
        lemma_all_zero_stays_in_scale(trades.drop_last(), term);
    }
}

/// The finest scale and the scaled total do not depend on the order of the
/// trades.
proof fn lemma_totals_permute(first: Seq<TradeView>, second: Seq<TradeView>, term: Term, scale: nat)
    requires
        first.to_multiset() == second.to_multiset(),
    ensures
        finest_scale(first, term) == finest_scale(second, term),
        scaled_total(first, term, scale) == scaled_total(second, term, scale),
{
    let pick = |finest: nat, trade: TradeView|
        match term(trade) {
            Some(x) => if !x.is_zero() && x.scale > finest {
                x.scale
            } else {
                finest
            },
            None => finest,
        };
    let plus = |total: int, trade: TradeView|
        match term(trade) {
            Some(x) => total + x.at_scale(scale),
            None => total,
        };
    lemma_fold_left_permutation(first, second, pick, 0nat);
    lemma_fold_left_permutation(first, second, plus, 0int);
}

/// Whether the terms add up does not depend on the order of the trades.
pub proof fn lemma_adds_up_permutes(first: Seq<TradeView>, second: Seq<TradeView>, term: Term)
    requires
        first.to_multiset() == second.to_multiset(),
        adds_up(first, term),
    ensures
        adds_up(second, term),
        finest_scale(first, term) == finest_scale(second, term),
        plain_total(first, term) == plain_total(second, term),
{
    broadcast use group_to_multiset_ensures;

    lemma_totals_permute(first, second, term, finest_scale(first, term));
    assert forall|i: int| 0 <= i < second.len() implies (#[trigger] term(second[i]) matches Some(
        x,
    ) ==> x.mantissa >= 0) by {
        assert(second.to_multiset().count(second[i]) > 0);
    }
}

/// Some term is not zero.
pub open spec fn has_weight(trades: Seq<TradeView>, term: Term) -> bool {
    trades.fold_left(
        false,
        |found: bool, trade: TradeView| found || (term(trade) matches Some(x) && !x.is_zero()),
    )
}

/// Terms that are all zero have total 0 and finest scale 0.
pub proof fn lemma_without_weight(trades: Seq<TradeView>, term: Term, scale: nat)
    requires
        !has_weight(trades, term),
    ensures
        scaled_total(trades, term, scale) == 0,
        finest_scale(trades, term) == 0,
    decreases trades.len(),
{
    if trades.len() > 0 {
        lemma_without_weight(trades.drop_last(), term, scale);
    }
}

/// Where every purchase of `ticker` was made at the same price, other than
/// zero, the costs are the amounts times that price: in their total, and in
/// their finest scale.
pub proof fn lemma_costs_follow_amounts(
    trades: Seq<TradeView>,
    ticker: Seq<char>,
    price: DecimalView,
    scale: nat,
)
    requires
        !price.is_zero(),
        forall|i: int|
            0 <= i < trades.len() && selects(#[trigger] trades[i], ticker, Operation::Buy)
                ==> trades[i].price == price,
    ensures
        scaled_total(trades, cost_term(ticker), scale + price.scale) == price.mantissa
            * scaled_total(trades, amount_term(ticker, Operation::Buy), scale),
        has_weight(trades, cost_term(ticker)) == has_weight(
            trades,
            amount_term(ticker, Operation::Buy),
        ),
        has_weight(trades, amount_term(ticker, Operation::Buy)) ==> finest_scale(
            trades,
            cost_term(ticker),
        ) == finest_scale(trades, amount_term(ticker, Operation::Buy)) + price.scale,
    decreases trades.len(),
{
    let costs = cost_term(ticker);
    let buys = amount_term(ticker, Operation::Buy);
    let m = price.mantissa;
    if trades.len() == 0 {
        assert(m * 0 == 0) by (nonlinear_arith);
    } else {
        let earlier = trades.drop_last();
        let trade = trades.last();
        lemma_costs_follow_amounts(earlier, ticker, price, scale);
        let t = scaled_total(earlier, buys, scale);
        if selects(trade, ticker, Operation::Buy) {
            let a = trade.amount;
            let c = a.exact_product(price);
            if a.is_zero() {
                lemma_zero_at_any_scale(a, scale);
                lemma_zero_at_any_scale(c, scale + price.scale);
            } else {
                let p = pow(10, (scale - a.scale) as nat);
                assert((scale + price.scale - (a.scale + price.scale)) as nat == (scale
                    - a.scale) as nat);
                assert((a.mantissa * m) * p == m * (a.mantissa * p)) by (nonlinear_arith);
                assert(a.mantissa * m != 0) by (nonlinear_arith)
                    requires
                        a.mantissa != 0,
                        m != 0,
                ;
                if !has_weight(earlier, buys) {
                    lemma_without_weight(earlier, buys, scale);
                    lemma_without_weight(earlier, costs, scale);
                }
            }
            assert(m * (t + a.at_scale(scale)) == m * t + m * a.at_scale(scale))
                by (nonlinear_arith);
        }
    }
}

/// The total amount of a side is the running total of its amounts.
pub proof fn lemma_total_amount_runs(
    trades: Seq<TradeView>,
    ticker: Seq<char>,
    operation: Operation,
)
    ensures
        total_amount(trades, ticker, operation) == running_total(
            trades,
            amount_term(ticker, operation),
        ),
    decreases trades.len(),
{
    if trades.len() > 0 {
        lemma_total_amount_runs(trades.drop_last(), ticker, operation);
    }
}

/// Where the cost of each purchase is exact, the total cost is the running
/// total of those costs.
pub proof fn lemma_total_cost_runs(trades: Seq<TradeView>, ticker: Seq<char>)
    requires
        forall|i: int|
            0 <= i < trades.len() && selects(#[trigger] trades[i], ticker, Operation::Buy)
                ==> trades[i].amount.product_is_exact(trades[i].price),
    ensures
        total_cost(trades, ticker) == running_total(trades, cost_term(ticker)),
    decreases trades.len(),
{
    if trades.len() > 0 {
        lemma_total_cost_runs(trades.drop_last(), ticker);
    }
}

} // verus!

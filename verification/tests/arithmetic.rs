use portfolio::asset::Asset;
use portfolio::decimal::{Decimal, MAX_MANTISSA};
use portfolio::ledger::{average, profit_at, round_price, Ledger};
use portfolio::stock::{Operation, Stock, StockTrade, Timestamp};

/// A small deterministic generator of test values.
struct Numbers {
    state: u64,
}

impl Numbers {
    fn next(&mut self) -> u64 {
        self.state = self
            .state
            .wrapping_mul(6364136223846793005)
            .wrapping_add(1442695040888963407);
        let mut x = self.state;
        x ^= x >> 33;
        x = x.wrapping_mul(0xff51afd7ed558ccd);
        x ^= x >> 33;
        x
    }

    fn below(&mut self, n: u64) -> u64 {
        self.next() % n
    }

    /// A magnitude of at least 1 with at most `max_bits` bits.
    fn magnitude(&mut self, max_bits: u32) -> i128 {
        let bits = 1 + self.below(max_bits as u64) as u32;
        let wide = ((self.next() as u128) << 64) | self.next() as u128;
        ((wide >> (128 - bits)) as i128).max(1)
    }

    /// A mantissa of any size up to 96 bits, zero now and then, and a scale.
    fn parts(&mut self) -> (i128, u32) {
        let scale = self.below(29) as u32;
        if self.below(12) == 0 {
            return (0, scale);
        }
        let bits = self.below(97) as u32;
        let wide = ((self.next() as u128) << 64) | self.next() as u128;
        let magnitude = if bits == 0 { 0 } else { (wide >> (128 - bits)) as i128 };
        let magnitude = magnitude.min(MAX_MANTISSA);
        if self.below(2) == 0 {
            (magnitude, scale)
        } else {
            (-magnitude, scale)
        }
    }
}

fn dec(parts: (i128, u32)) -> Decimal {
    Decimal::from_parts(parts.0, parts.1).unwrap()
}

fn parts(d: Option<Decimal>) -> Option<(i128, u32)> {
    d.map(|d| (d.mantissa(), d.scale()))
}

fn fits(m: i128) -> bool {
    -MAX_MANTISSA <= m && m <= MAX_MANTISSA
}

/// The mantissa at a finer scale, if it fits.
fn at_scale(parts: (i128, u32), scale: u32) -> Option<i128> {
    let moved = parts.0.checked_mul(10i128.checked_pow(scale - parts.1)?)?;
    if fits(moved) {
        Some(moved)
    } else {
        None
    }
}

fn two_trades(a: (i128, u32), b: (i128, u32), second: Operation) -> Ledger {
    let stock = || Stock::new("TTT".to_string(), "Test".to_string());
    let at = Timestamp { seconds: 0, nanoseconds: 0 };
    let mut ledger = Ledger::new();
    ledger.add(StockTrade::new(stock(), dec((1, 0)), dec(a), Operation::Buy, at));
    ledger.add(StockTrade::new(stock(), dec((1, 0)), dec(b), second, at));
    ledger
}

fn less_nothing(total: (i128, u32)) -> (i128, u32) {
    if total.0 == 0 {
        (0, 0)
    } else {
        total
    }
}

#[test]
fn exact_sums_on_many_values() {
    let mut numbers = Numbers { state: 1 };
    let mut exact = 0;
    for _ in 0..40_000 {
        let a = numbers.parts();
        let b = numbers.parts();
        let fine = a.1.max(b.1);
        let total = if a.0 == 0 {
            Some(b)
        } else if b.0 == 0 {
            Some(a)
        } else {
            match (at_scale(a, fine), at_scale(b, fine)) {
                (Some(x), Some(y)) if fits(x + y) => Some((x + y, fine)),
                _ => None,
            }
        };
        let got = two_trades(a, b, Operation::Buy)
            .available(Stock::new("TTT".to_string(), String::new()));
        if let Some(total) = total {
            exact += 1;
            assert_eq!(parts(got), Some(less_nothing(total)), "{:?} + {:?}", a, b);
        }
    }
    assert!(exact > 4_000);
}

#[test]
fn exact_differences_on_many_values() {
    let mut numbers = Numbers { state: 2 };
    let mut exact = 0;
    for _ in 0..40_000 {
        let a = numbers.parts();
        let b = numbers.parts();
        let fine = a.1.max(b.1);
        let difference = if a.0 == 0 {
            Some((-b.0, b.1))
        } else if b.0 == 0 {
            Some(a)
        } else {
            match (at_scale(a, fine), at_scale(b, fine)) {
                (Some(x), Some(y)) if fits(x - y) => Some((x - y, fine)),
                _ => None,
            }
        };
        let got = two_trades(a, b, Operation::Sell)
            .available(Stock::new("TTT".to_string(), String::new()));
        if let Some(difference) = difference {
            exact += 1;
            assert_eq!(parts(got), Some(difference), "{:?} - {:?}", a, b);
        }
    }
    assert!(exact > 4_000);
}

#[test]
fn exact_products_on_many_values() {
    let mut numbers = Numbers { state: 3 };
    let mut exact = 0;
    for _ in 0..80_000 {
        let a = numbers.parts();
        let b = numbers.parts();
        let product = if a.0 == 0 || b.0 == 0 {
            Some((0, 0))
        } else {
            match b.0.checked_mul(a.0) {
                Some(m) if fits(m) && a.1 + b.1 <= 28 => Some((m, b.1 + a.1)),
                _ => None,
            }
        };
        let got = profit_at(Decimal::zero(), dec(a), dec(b));
        if let Some(product) = product {
            exact += 1;
            assert_eq!(parts(got), Some(product), "{:?} * {:?}", b, a);
        }
    }
    assert!(exact > 4_000);
}

/// To two fractional digits, a tie going to the even neighbour.
fn rounded(a: (i128, u32)) -> (i128, u32) {
    if a.1 <= 2 {
        a
    } else {
        let step = 10i128.pow(a.1 - 2);
        let magnitude = a.0.abs();
        let (q, r) = (magnitude / step, magnitude % step);
        let q = if 2 * r > step || (2 * r == step && q % 2 == 1) { q + 1 } else { q };
        (if a.0 < 0 { -q } else { q }, 2)
    }
}

#[test]
fn rounding_on_many_values() {
    let mut numbers = Numbers { state: 4 };
    for _ in 0..80_000 {
        let a = numbers.parts();
        assert_eq!(parts(Some(round_price(dec(a)))), Some(rounded(a)), "{:?}", a);
    }
}

/// A dividend whose mantissa is a multiple of the divisor's, at a scale that
/// is no smaller by at most `spread`.
fn multiple(numbers: &mut Numbers, spread: u64) -> Option<((i128, u32), (i128, u32))> {
    let divisor_bits = 1 + numbers.below(96) as u32;
    let b = numbers.magnitude(divisor_bits);
    let q = numbers.magnitude(96);
    let a = match q.checked_mul(b) {
        Some(a) if a <= MAX_MANTISSA => a,
        _ => return None,
    };
    let sb = numbers.below(29) as u32;
    let sa = sb + numbers.below(spread.min(29 - sb as u64)) as u32;
    let a = if numbers.below(2) == 0 { a } else { -a };
    let b = if numbers.below(2) == 0 { b } else { -b };
    Some(((a, sa), (b, sb)))
}

#[test]
fn exact_quotients_on_many_values() {
    let mut numbers = Numbers { state: 7 };
    let mut seen = 0;
    for _ in 0..200_000 {
        // With a quotient of at most two fractional digits nothing is rounded.
        if let Some((a, b)) = multiple(&mut numbers, 3) {
            seen += 1;
            assert_eq!(
                parts(average(dec(a), dec(b))),
                Some((a.0 / b.0, a.1 - b.1)),
                "{:?} / {:?}",
                a,
                b
            );
        }
    }
    assert!(seen > 20_000);
}

#[test]
fn exact_quotients_rounded_on_many_values() {
    let mut numbers = Numbers { state: 8 };
    let mut seen = 0;
    for _ in 0..200_000 {
        if let Some((a, b)) = multiple(&mut numbers, 29) {
            seen += 1;
            assert_eq!(
                parts(average(dec(a), dec(b))),
                Some(rounded((a.0 / b.0, a.1 - b.1))),
                "{:?} / {:?}",
                a,
                b
            );
        }
    }
    assert!(seen > 20_000);
}

#[test]
fn equality_on_many_values() {
    let mut numbers = Numbers { state: 5 };
    let reduced = |mut x: (i128, u32)| {
        while x.1 > 0 && x.0 % 10 == 0 {
            x = (x.0 / 10, x.1 - 1);
        }
        if x.0 == 0 {
            (0, 0)
        } else {
            x
        }
    };
    let mut equal = 0;
    for _ in 0..80_000 {
        let a = numbers.parts();
        let b = match numbers.below(3) {
            0 => numbers.parts(),
            1 => (a.0, numbers.below(29) as u32),
            _ => {
                let finer = a.1 + numbers.below(29 - a.1 as u64) as u32;
                match at_scale(a, finer) {
                    Some(m) => (m, finer),
                    None => reduced(a),
                }
            }
        };
        let same = reduced(a) == reduced(b);
        if same {
            equal += 1;
        }
        assert_eq!(dec(a) == dec(b), same, "{:?} == {:?}", a, b);
        assert_eq!(dec(b) == dec(a), same, "{:?} == {:?}", b, a);
    }
    assert!(equal > 4_000);
}

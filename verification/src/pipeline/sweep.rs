//! The parameter sweep's grid of settings, and trades synthesized from bars, so that a
//! sweep over cached bars can feed impulse profiling as the live feed's trades would.

use vstd::prelude::*;

use crate::pipeline::bars::Bar;
use crate::pipeline::trades::{Side, Trade};
use crate::units::Price;

verus! {

/// A synthesized trade of a bar, without its timestamp and symbol (those of the bar).
pub open spec fn synth(bar: Bar, price: i64, size: u64, side: Side) -> Trade {
    Trade { ts_event: bar.timestamp, price, size, side, symbol: bar.symbol }
}

/// The trades that stand for a bar's volume: none without volume. A rising (or flat) bar
/// buys half its buy volume at the low and half at the close, and sells its sell volume at
/// the high; a falling bar sells half its sell volume at the high and half at the close,
/// and buys its buy volume at the low. A side without volume gives no trade.
pub open spec fn synthesized(bar: Bar) -> Seq<Trade> {
    if bar.volume == 0 {
        Seq::empty()
    } else if bar.close >= bar.open {
        let buys = if bar.buy_volume > 0 {
            seq![synth(bar, bar.low, bar.buy_volume / 2, Side::Buy), synth(bar, bar.close, bar.buy_volume / 2, Side::Buy)]
        } else {
            Seq::empty()
        };
        let sells = if bar.sell_volume > 0 { seq![synth(bar, bar.high, bar.sell_volume, Side::Sell)] } else { Seq::empty() };
        buys + sells
    } else {
        let sells = if bar.sell_volume > 0 {
            seq![synth(bar, bar.high, bar.sell_volume / 2, Side::Sell), synth(bar, bar.close, bar.sell_volume / 2, Side::Sell)]
        } else {
            Seq::empty()
        };
        let buys = if bar.buy_volume > 0 { seq![synth(bar, bar.low, bar.buy_volume, Side::Buy)] } else { Seq::empty() };
        sells + buys
    }
}

fn trade_of(bar: &Bar, price: i64, size: u64, side: Side) -> (r: Trade)
    ensures
        r == synth(*bar, price, size, side),
{
    Trade { ts_event: bar.timestamp, price, size, side, symbol: bar.symbol.clone() }
}

/// The trades that stand for a bar (see `synthesized`).
pub fn synthesize_trades_from_bar(bar: &Bar) -> (r: Vec<Trade>)
    ensures
        r@ == synthesized(*bar),
{
    let mut trades: Vec<Trade> = Vec::new();
    if bar.volume == 0 {
        return trades;
    }
    if bar.close >= bar.open {
        if bar.buy_volume > 0 {
            trades.push(trade_of(bar, bar.low, bar.buy_volume / 2, Side::Buy));
            trades.push(trade_of(bar, bar.close, bar.buy_volume / 2, Side::Buy));
        }
        if bar.sell_volume > 0 {
            trades.push(trade_of(bar, bar.high, bar.sell_volume, Side::Sell));
        }
    } else {
        if bar.sell_volume > 0 {
            trades.push(trade_of(bar, bar.high, bar.sell_volume / 2, Side::Sell));
            trades.push(trade_of(bar, bar.close, bar.sell_volume / 2, Side::Sell));
        }
        if bar.buy_volume > 0 {
            trades.push(trade_of(bar, bar.low, bar.buy_volume, Side::Buy));
        }
    }
    proof {
        assert(trades@ =~= synthesized(*bar));
    }
    trades
}

/// One setting of the parameter sweep. Distances are in price units; the LVN volume
/// ratio limit is in hundredths of a percent.
#[derive(Debug, Clone, Copy, PartialEq, Eq, Structural)]
pub struct SweepParams {
    pub min_delta: i64,
    pub max_lvn_ratio_bp: u64,
    pub min_impulse_size: Price,
    pub min_impulse_score: u8,
    pub take_profit: Price,
    pub trailing_stop: Price,
    pub stop_buffer: Price,
    pub breakout_threshold: Price,
    pub max_hunting_bars: usize,
}

/// The digits of `k` in the mixed radix `radices`, most significant first.
pub open spec fn mixed_digits(radices: Seq<nat>, k: nat) -> Seq<nat>
    decreases radices.len(),
{
    if radices.len() == 0 {
        Seq::empty()
    } else {
        let r = radices.last();
        mixed_digits(radices.drop_last(), if r == 0 { 0 } else { k / r }).push(if r == 0 { 0 } else { k % r })
    }
}

/// The product of the radices.
pub open spec fn radix_product(radices: Seq<nat>) -> nat
    decreases radices.len(),
{
    if radices.len() == 0 {
        1
    } else {
        radix_product(radices.drop_last()) * radices.last()
    }
}

/// Below the product of the radices, each digit is below its radix.
pub proof fn lemma_mixed_digits(radices: Seq<nat>, k: nat)
    requires
        k < radix_product(radices),
    ensures
        mixed_digits(radices, k).len() == radices.len(),
        forall|j: int| 0 <= j < radices.len() ==> #[trigger] mixed_digits(radices, k)[j] < radices[j],
    decreases radices.len(),
{
    if radices.len() > 0 {
        let r = radices.last();
        let a = radix_product(radices.drop_last());
        assert(r > 0) by (nonlinear_arith)
            requires k < a * r, k >= 0, a >= 0;
        assert(k / r < a) by (nonlinear_arith)
            requires k < a * r, r > 0, k >= 0;
        lemma_mixed_digits(radices.drop_last(), k / r);
        let d = mixed_digits(radices, k);
        assert forall|j: int| 0 <= j < radices.len() implies #[trigger] d[j] < radices[j] by {
            if j < radices.len() - 1 {
                assert(d[j] == mixed_digits(radices.drop_last(), k / r)[j]);
                assert(radices[j] == radices.drop_last()[j]);
            }
        }
    }
}

/// The sizes of the nine lists of a sweep grid, as radices.
pub open spec fn grid_radices(
    a: Seq<i64>, b: Seq<u64>, c: Seq<Price>, d: Seq<u8>, e: Seq<Price>, f: Seq<Price>, g: Seq<Price>, h: Seq<Price>, i: Seq<usize>,
) -> Seq<nat> {
    seq![a.len(), b.len(), c.len(), d.len(), e.len(), f.len(), g.len(), h.len(), i.len()]
}

/// The `k`th setting of the grid: every combination of one value from each list, the
/// last list varying fastest and the first slowest.
pub open spec fn grid_params(
    a: Seq<i64>, b: Seq<u64>, c: Seq<Price>, d: Seq<u8>, e: Seq<Price>, f: Seq<Price>, g: Seq<Price>, h: Seq<Price>, i: Seq<usize>, k: nat,
) -> SweepParams {
    let x = mixed_digits(grid_radices(a, b, c, d, e, f, g, h, i), k);
    SweepParams {
        min_delta: a[x[0] as int],
        max_lvn_ratio_bp: b[x[1] as int],
        min_impulse_size: c[x[2] as int],
        min_impulse_score: d[x[3] as int],
        take_profit: e[x[4] as int],
        trailing_stop: f[x[5] as int],
        stop_buffer: g[x[6] as int],
        breakout_threshold: h[x[7] as int],
        max_hunting_bars: i[x[8] as int],
    }
}

/// A prefix of radices of at least one has a product no larger than the whole.
proof fn lemma_product_prefix_bound(radices: Seq<nat>, j: int)
    requires
        0 <= j <= radices.len(),
        forall|t: int| 0 <= t < radices.len() ==> #[trigger] radices[t] >= 1,
    ensures
        radix_product(radices.take(j)) <= radix_product(radices),
    decreases radices.len(),
{
    if j < radices.len() {
        let r = radices.drop_last();
        assert(radices.take(j) =~= r.take(j));
        assert forall|t: int| 0 <= t < r.len() implies #[trigger] r[t] >= 1 by {
            assert(r[t] == radices[t]);
        }
        lemma_product_prefix_bound(r, j);
        let a = radix_product(r);
        let b = radices.last();
        assert(a <= a * b) by (nonlinear_arith)
            requires b >= 1;
    } else {
        assert(radices.take(j) =~= radices);
    }
}

/// The mixed-radix digits of `k` after one more radix.
proof fn lemma_mixed_digits_push(radices: Seq<nat>, x: nat, k: nat)
    requires
        x > 0,
    ensures
        mixed_digits(radices.push(x), k) == mixed_digits(radices, k / x).push(k % x),
{
    assert(radices.push(x).drop_last() =~= radices);
}

/// Every combination of one value from each list (see `grid_params`).
pub fn generate_combinations(
    min_delta_values: &[i64],
    max_lvn_ratio_values: &[u64],
    min_impulse_size_values: &[Price],
    min_impulse_score_values: &[u8],
    take_profit_values: &[Price],
    trailing_stop_values: &[Price],
    stop_buffer_values: &[Price],
    breakout_threshold_values: &[Price],
    max_hunting_bars_values: &[usize],
) -> (r: Vec<SweepParams>)
    requires
        radix_product(grid_radices(
            min_delta_values@, max_lvn_ratio_values@, min_impulse_size_values@, min_impulse_score_values@, take_profit_values@,
            trailing_stop_values@, stop_buffer_values@, breakout_threshold_values@, max_hunting_bars_values@,
        )) <= usize::MAX,
    ensures
        r@.len() == radix_product(grid_radices(
            min_delta_values@, max_lvn_ratio_values@, min_impulse_size_values@, min_impulse_score_values@, take_profit_values@,
            trailing_stop_values@, stop_buffer_values@, breakout_threshold_values@, max_hunting_bars_values@,
        )),
        forall|k: int| 0 <= k < r@.len() ==> #[trigger] r@[k] == grid_params(
            min_delta_values@, max_lvn_ratio_values@, min_impulse_size_values@, min_impulse_score_values@, take_profit_values@,
            trailing_stop_values@, stop_buffer_values@, breakout_threshold_values@, max_hunting_bars_values@, k as nat,
        ),
{
    let ghost radices = grid_radices(
        min_delta_values@, max_lvn_ratio_values@, min_impulse_size_values@, min_impulse_score_values@, take_profit_values@,
        trailing_stop_values@, stop_buffer_values@, breakout_threshold_values@, max_hunting_bars_values@,
    );
    let n1 = min_delta_values.len();
    let n2 = max_lvn_ratio_values.len();
    let n3 = min_impulse_size_values.len();
    let n4 = min_impulse_score_values.len();
    let n5 = take_profit_values.len();
    let n6 = trailing_stop_values.len();
    let n7 = stop_buffer_values.len();
    let n8 = breakout_threshold_values.len();
    let n9 = max_hunting_bars_values.len();
    let ghost r0 = Seq::<nat>::empty();
    let ghost r1 = r0.push(n1 as nat);
    let ghost r2 = r1.push(n2 as nat);
    let ghost r3 = r2.push(n3 as nat);
    let ghost r4 = r3.push(n4 as nat);
    let ghost r5 = r4.push(n5 as nat);
    let ghost r6 = r5.push(n6 as nat);
    let ghost r7 = r6.push(n7 as nat);
    let ghost r8 = r7.push(n8 as nat);
    let ghost r9 = r8.push(n9 as nat);
    assert(r9 =~= radices);
    if n1 == 0 || n2 == 0 || n3 == 0 || n4 == 0 || n5 == 0 || n6 == 0 || n7 == 0 || n8 == 0 || n9 == 0 {
        proof {
            assert(r1.drop_last() =~= r0);
            assert(r2.drop_last() =~= r1);
            assert(r3.drop_last() =~= r2);
            assert(r4.drop_last() =~= r3);
            assert(r5.drop_last() =~= r4);
            assert(r6.drop_last() =~= r5);
            assert(r7.drop_last() =~= r6);
            assert(r8.drop_last() =~= r7);
            assert(r9.drop_last() =~= r8);
            assert(radix_product(r9) == 0) by (nonlinear_arith)
                requires
                    radix_product(r9) == radix_product(r8) * n9,
                    radix_product(r8) == radix_product(r7) * n8,
                    radix_product(r7) == radix_product(r6) * n7,
                    radix_product(r6) == radix_product(r5) * n6,
                    radix_product(r5) == radix_product(r4) * n5,
                    radix_product(r4) == radix_product(r3) * n4,
                    radix_product(r3) == radix_product(r2) * n3,
                    radix_product(r2) == radix_product(r1) * n2,
                    radix_product(r1) == radix_product(r0) * n1,
                    n1 == 0 || n2 == 0 || n3 == 0 || n4 == 0 || n5 == 0 || n6 == 0 || n7 == 0 || n8 == 0 || n9 == 0;
        }
        return Vec::new();
    }
    proof {
        assert forall|t: int| 0 <= t < radices.len() implies #[trigger] radices[t] >= 1 by {}
        assert(r1.drop_last() =~= r0);
        assert(r2.drop_last() =~= r1);
        assert(r3.drop_last() =~= r2);
        assert(r4.drop_last() =~= r3);
        assert(r5.drop_last() =~= r4);
        assert(r6.drop_last() =~= r5);
        assert(r7.drop_last() =~= r6);
        assert(r8.drop_last() =~= r7);
        assert(r9.drop_last() =~= r8);
        lemma_product_prefix_bound(radices, 1);
        lemma_product_prefix_bound(radices, 2);
        lemma_product_prefix_bound(radices, 3);
        lemma_product_prefix_bound(radices, 4);
        lemma_product_prefix_bound(radices, 5);
        lemma_product_prefix_bound(radices, 6);
        lemma_product_prefix_bound(radices, 7);
        lemma_product_prefix_bound(radices, 8);
        assert(radices.take(1) =~= r1);
        assert(radices.take(2) =~= r2);
        assert(radices.take(3) =~= r3);
        assert(radices.take(4) =~= r4);
        assert(radices.take(5) =~= r5);
        assert(radices.take(6) =~= r6);
        assert(radices.take(7) =~= r7);
        assert(radices.take(8) =~= r8);
        assert(radix_product(r0) == 1);
        assert(radix_product(r1) == n1);
        assert(radix_product(r2) == n1 * n2);
        assert(radix_product(r3) == n1 * n2 * n3);
        assert(radix_product(r4) == n1 * n2 * n3 * n4);
        assert(radix_product(r5) == n1 * n2 * n3 * n4 * n5);
        assert(radix_product(r6) == n1 * n2 * n3 * n4 * n5 * n6);
        assert(radix_product(r7) == n1 * n2 * n3 * n4 * n5 * n6 * n7);
        assert(radix_product(r8) == n1 * n2 * n3 * n4 * n5 * n6 * n7 * n8);
        assert(radix_product(r9) == n1 * n2 * n3 * n4 * n5 * n6 * n7 * n8 * n9);
    }
    let total: usize = n1 * n2 * n3 * n4 * n5 * n6 * n7 * n8 * n9;
    let mut out: Vec<SweepParams> = Vec::new();
    let mut k: usize = 0;
    while k < total
        invariant
            k <= total,
            total == radix_product(radices),
            radices == grid_radices(
                min_delta_values@, max_lvn_ratio_values@, min_impulse_size_values@, min_impulse_score_values@,
                take_profit_values@, trailing_stop_values@, stop_buffer_values@, breakout_threshold_values@,
                max_hunting_bars_values@,
            ),
            r9 == radices,
            r1 == r0.push(n1 as nat), r2 == r1.push(n2 as nat), r3 == r2.push(n3 as nat), r4 == r3.push(n4 as nat),
            r5 == r4.push(n5 as nat), r6 == r5.push(n6 as nat), r7 == r6.push(n7 as nat), r8 == r7.push(n8 as nat),
            r9 == r8.push(n9 as nat),
            r0 == Seq::<nat>::empty(),
            n1 > 0, n2 > 0, n3 > 0, n4 > 0, n5 > 0, n6 > 0, n7 > 0, n8 > 0, n9 > 0,
            n1 == min_delta_values@.len(), n2 == max_lvn_ratio_values@.len(), n3 == min_impulse_size_values@.len(),
            n4 == min_impulse_score_values@.len(), n5 == take_profit_values@.len(), n6 == trailing_stop_values@.len(),
            n7 == stop_buffer_values@.len(), n8 == breakout_threshold_values@.len(), n9 == max_hunting_bars_values@.len(),
            out@.len() == k,
            forall|t: int| 0 <= t < k ==> #[trigger] out@[t] == grid_params(
                min_delta_values@, max_lvn_ratio_values@, min_impulse_size_values@, min_impulse_score_values@,
                take_profit_values@, trailing_stop_values@, stop_buffer_values@, breakout_threshold_values@,
                max_hunting_bars_values@, t as nat,
            ),
        decreases total - k,
    {
        let q9 = k;
        let d9 = q9 % n9;
        let q8 = q9 / n9;
        let d8 = q8 % n8;
        let q7 = q8 / n8;
        let d7 = q7 % n7;
        let q6 = q7 / n7;
        let d6 = q6 % n6;
        let q5 = q6 / n6;
        let d5 = q5 % n5;
        let q4 = q5 / n5;
        let d4 = q4 % n4;
        let q3 = q4 / n4;
        let d3 = q3 % n3;
        let q2 = q3 / n3;
        let d2 = q2 % n2;
        let q1 = q2 / n2;
        let d1 = q1 % n1;
        proof {
            lemma_mixed_digits_push(r8, n9 as nat, q9 as nat);
            lemma_mixed_digits_push(r7, n8 as nat, q8 as nat);
            lemma_mixed_digits_push(r6, n7 as nat, q7 as nat);
            lemma_mixed_digits_push(r5, n6 as nat, q6 as nat);
            lemma_mixed_digits_push(r4, n5 as nat, q5 as nat);
            lemma_mixed_digits_push(r3, n4 as nat, q4 as nat);
            lemma_mixed_digits_push(r2, n3 as nat, q3 as nat);
            lemma_mixed_digits_push(r1, n2 as nat, q2 as nat);
            lemma_mixed_digits_push(r0, n1 as nat, q1 as nat);
            let x = mixed_digits(radices, k as nat);
            assert(x =~= seq![d1 as nat, d2 as nat, d3 as nat, d4 as nat, d5 as nat, d6 as nat, d7 as nat, d8 as nat, d9 as nat]);
        }
        let p = SweepParams {
            min_delta: min_delta_values[d1],
            max_lvn_ratio_bp: max_lvn_ratio_values[d2],
            min_impulse_size: min_impulse_size_values[d3],
            min_impulse_score: min_impulse_score_values[d4],
            take_profit: take_profit_values[d5],
            trailing_stop: trailing_stop_values[d6],
            stop_buffer: stop_buffer_values[d7],
            breakout_threshold: breakout_threshold_values[d8],
            max_hunting_bars: max_hunting_bars_values[d9],
        };
        out.push(p);
        k = k + 1;
    }
    out
}

} // verus!

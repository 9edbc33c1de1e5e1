//! An index of the key levels of several days (daily levels and LVNs), sorted by price,
//! for finding the levels near a price.

use vstd::prelude::*;

use crate::pipeline::levels::{DailyLevels, LevelType};
use crate::pipeline::lvn::LvnLevel;
use crate::pipeline::sorting::{lemma_insertion_step, stably_sorted};
use crate::units::{abs, price_distance, Price};

verus! {

/// A key level: a price of a kind on a UTC day, with a strength between 0 and 1 kept as
/// the fraction `strength_num / strength_den`.
#[derive(Debug, Clone, Copy, PartialEq, Eq, Structural)]
pub struct KeyLevel {
    pub price: Price,
    pub level_type: LevelType,
    /// Days since the Unix epoch
    pub date: i64,
    pub strength_num: u64,
    pub strength_den: u64,
}

/// A level of full strength.
pub open spec fn full_level(price: Price, level_type: LevelType, date: i64) -> KeyLevel {
    KeyLevel { price, level_type, date, strength_num: 1, strength_den: 1 }
}

/// The seven key levels of a day, in this order: POC, VAH, VAL, PDH, PDL, ONH, ONL.
pub open spec fn daily_key_levels(d: DailyLevels) -> Seq<KeyLevel> {
    seq![
        full_level(d.poc, LevelType::POC, d.date),
        full_level(d.vah, LevelType::VAH, d.date),
        full_level(d.val, LevelType::VAL, d.date),
        full_level(d.pdh, LevelType::PDH, d.date),
        full_level(d.pdl, LevelType::PDL, d.date),
        full_level(d.onh, LevelType::ONH, d.date),
        full_level(d.onl, LevelType::ONL, d.date),
    ]
}

/// The key level of an LVN: its strength is one minus its volume ratio (its volume over
/// the average bucket volume of its profile, `volume * buckets / profile_volume`), and
/// zero where the ratio reaches one or the profile has no volume.
pub open spec fn lvn_key_level(l: LvnLevel) -> KeyLevel {
    let ratio_num = l.volume * l.profile_buckets;
    KeyLevel {
        price: l.price,
        level_type: LevelType::LVN,
        date: l.date,
        strength_num: if l.profile_volume == 0 || ratio_num >= l.profile_volume {
            0
        } else {
            (l.profile_volume - ratio_num) as u64
        },
        strength_den: if l.profile_volume == 0 { 1 } else { l.profile_volume },
    }
}

/// The key levels of the days, day by day.
pub open spec fn daily_levels_seq(days: Seq<DailyLevels>) -> Seq<KeyLevel>
    decreases days.len(),
{
    if days.len() == 0 {
        Seq::empty()
    } else {
        daily_levels_seq(days.drop_last()) + daily_key_levels(days.last())
    }
}

/// The key levels of the days, then those of the LVNs.
pub open spec fn index_input(days: Seq<DailyLevels>, lvns: Seq<LvnLevel>) -> Seq<KeyLevel> {
    daily_levels_seq(days) + lvns.map_values(|l: LvnLevel| lvn_key_level(l))
}

/// The price of a level, as the key the index sorts by.
pub open spec fn price_key() -> spec_fn(KeyLevel) -> int {
    |l: KeyLevel| l.price as int
}

/// Whether `r` is `s` sorted by price with the levels of one price in their order in `s`.
pub open spec fn stable_sorted(r: Seq<KeyLevel>, s: Seq<KeyLevel>) -> bool {
    stably_sorted(r, s, price_key())
}

/// Whether every strength has a positive denominator.
pub open spec fn positive_strengths(s: Seq<KeyLevel>) -> bool {
    forall|i: int| 0 <= i < s.len() ==> (#[trigger] s[i]).strength_den > 0
}

/// The levels of a day within a tolerance of a price.
pub open spec fn near(price: Price, date: i64, tolerance: Price) -> spec_fn(KeyLevel) -> bool {
    |l: KeyLevel| l.date == date && abs(l.price - price) <= tolerance
}

/// The levels of a day.
pub open spec fn on_date(date: i64) -> spec_fn(KeyLevel) -> bool {
    |l: KeyLevel| l.date == date
}

/// Whether level `a` is at least as strong as level `b`.
pub open spec fn at_least_as_strong(a: KeyLevel, b: KeyLevel) -> bool {
    a.strength_num * b.strength_den >= b.strength_num * a.strength_den
}

/// The strongest level, the last of the strongest where several are as strong.
pub open spec fn strongest(s: Seq<KeyLevel>) -> Option<KeyLevel>
    decreases s.len(),
{
    if s.len() == 0 {
        None
    } else {
        match strongest(s.drop_last()) {
            None => Some(s.last()),
            Some(b) => if at_least_as_strong(s.last(), b) {
                Some(s.last())
            } else {
                Some(b)
            },
        }
    }
}

/// The levels sorted by price, stably: levels at one price keep their order.
fn sort_by_price(s: &Vec<KeyLevel>) -> (r: Vec<KeyLevel>)
    requires
        positive_strengths(s@),
    ensures
        stable_sorted(r@, s@),
        positive_strengths(r@),
{
    let mut out: Vec<KeyLevel> = Vec::new();
    let mut i: usize = 0;
    proof {
        assert(out@ =~= s@.take(0));
    }
    while i < s.len()
        invariant
            i <= s@.len(),
            positive_strengths(s@),
            positive_strengths(out@),
            stably_sorted(out@, s@.take(i as int), price_key()),
        decreases s@.len() - i,
    {
        let x = s[i];
        let mut j: usize = 0;
        while j < out.len() && out[j].price <= x.price
            invariant
                j <= out@.len(),
                forall|k: int| 0 <= k < j ==> (#[trigger] out@[k]).price <= x.price,
            decreases out@.len() - j,
        {
            j += 1;
        }
        let ghost before = out@;
        proof {
            assert(x == s@[i as int]);
            lemma_insertion_step(before, s@, i as int, j as int, price_key());
        }
        out.insert(j, x);
        proof {
            assert forall|k: int| 0 <= k < out@.len() implies (#[trigger] out@[k]).strength_den > 0 by {
                if k < j {
                    assert(out@[k] == before[k]);
                } else if k > j {
                    assert(out@[k] == before[k - 1]);
                }
            }
        }
        i += 1;
    }
    proof {
        assert(s@.take(i as int) =~= s@);
    }
    out
}

/// The key level of an LVN (see `lvn_key_level`).
fn lvn_key_level_exec(l: &LvnLevel) -> (r: KeyLevel)
    ensures
        r == lvn_key_level(*l),
{
    if l.profile_volume == 0 {
        KeyLevel { price: l.price, level_type: LevelType::LVN, date: l.date, strength_num: 0, strength_den: 1 }
    } else {
        proof {
            assert(l.volume * l.profile_buckets <= u64::MAX * u64::MAX) by (nonlinear_arith)
                requires 0 <= l.volume <= u64::MAX, 0 <= l.profile_buckets <= u64::MAX;
        }
        let ratio_num: u128 = l.volume as u128 * l.profile_buckets as u128;
        let strength_num: u64 = if ratio_num >= l.profile_volume as u128 {
            0
        } else {
            (l.profile_volume as u128 - ratio_num) as u64
        };
        KeyLevel { price: l.price, level_type: LevelType::LVN, date: l.date, strength_num, strength_den: l.profile_volume }
    }
}

/// Whether `a` is at least as strong as `b`.
fn at_least_as_strong_exec(a: &KeyLevel, b: &KeyLevel) -> (r: bool)
    ensures
        r == at_least_as_strong(*a, *b),
{
    proof {
        assert(a.strength_num * b.strength_den <= u64::MAX * u64::MAX) by (nonlinear_arith)
            requires 0 <= a.strength_num <= u64::MAX, 0 <= b.strength_den <= u64::MAX;
        assert(b.strength_num * a.strength_den <= u64::MAX * u64::MAX) by (nonlinear_arith)
            requires 0 <= b.strength_num <= u64::MAX, 0 <= a.strength_den <= u64::MAX;
    }
    a.strength_num as u128 * b.strength_den as u128 >= b.strength_num as u128 * a.strength_den as u128
}

/// The strongest of some levels with positive denominators is one of them, at least as
/// strong as each of them; there is a strongest level exactly when there are levels.
pub proof fn lemma_strongest(s: Seq<KeyLevel>)
    requires
        positive_strengths(s),
    ensures
        strongest(s) is Some <==> s.len() > 0,
        strongest(s) matches Some(b) ==> s.contains(b) && forall|i: int| 0 <= i < s.len() ==> at_least_as_strong(b, #[trigger] s[i]),
    decreases s.len(),
{
    if s.len() > 0 {
        let t = s.drop_last();
        assert(positive_strengths(t)) by {
            assert forall|i: int| 0 <= i < t.len() implies (#[trigger] t[i]).strength_den > 0 by {
                assert(t[i] == s[i]);
            }
        }
        lemma_strongest(t);
        let x = s.last();
        assert(s[s.len() - 1] == x);
        match strongest(t) {
            None => {
                assert(s.contains(x));
                assert forall|i: int| 0 <= i < s.len() implies at_least_as_strong(x, #[trigger] s[i]) by {
                    assert(i == s.len() - 1);
                    assert(x.strength_num * x.strength_den >= x.strength_num * x.strength_den);
                }
            },
            Some(b) => {
                let j = choose|j: int| 0 <= j < t.len() && t[j] == b;
                assert(s[j] == b);
                assert(b.strength_den > 0);
                if at_least_as_strong(x, b) {
                    assert(s.contains(x));
                    assert forall|i: int| 0 <= i < s.len() implies at_least_as_strong(x, #[trigger] s[i]) by {
                        if i < s.len() - 1 {
                            let c = s[i];
                            assert(c == t[i]);
                            assert(at_least_as_strong(b, c));
                            assert(c.strength_den > 0 && x.strength_den > 0);
                            assert(x.strength_num * c.strength_den >= c.strength_num * x.strength_den) by (nonlinear_arith)
                                requires
                                    x.strength_num * b.strength_den >= b.strength_num * x.strength_den,
                                    b.strength_num * c.strength_den >= c.strength_num * b.strength_den,
                                    b.strength_den > 0,
                                    c.strength_den > 0,
                                    x.strength_den > 0,
                                    x.strength_num >= 0,
                                    b.strength_num >= 0,
                                    c.strength_num >= 0;
                        } else {
                            assert(x.strength_num * x.strength_den >= x.strength_num * x.strength_den);
                        }
                    }
                } else {
                    assert(s.contains(b));
                    assert forall|i: int| 0 <= i < s.len() implies at_least_as_strong(b, #[trigger] s[i]) by {
                        if i < s.len() - 1 {
                            assert(s[i] == t[i]);
                        } else {
                            assert(s[i] == x);
                            assert(b.strength_num * x.strength_den >= x.strength_num * b.strength_den) by (nonlinear_arith)
                                requires !(x.strength_num * b.strength_den >= b.strength_num * x.strength_den);
                        }
                    }
                }
            },
        }
    }
}

/// Key levels sorted by price, with the tolerance within which a price is at a level.
pub struct LevelIndex {
    levels: Vec<KeyLevel>,
    tolerance: Price,
}

impl View for LevelIndex {
    type V = Seq<KeyLevel>;

    closed spec fn view(&self) -> Seq<KeyLevel> {
        self.levels@
    }
}

impl LevelIndex {
    /// The tolerance within which a price is at a level.
    pub closed spec fn tolerance_of(&self) -> Price {
        self.tolerance
    }

    /// The index of the days' key levels (see `daily_key_levels`) and of the LVNs (see
    /// `lvn_key_level`), sorted by price; levels at one price keep the order in which the
    /// days and then the LVNs list them.
    pub fn new(daily_levels: &[DailyLevels], lvn_levels: &[LvnLevel], tolerance: Price) -> (r: Self)
        ensures
            stable_sorted(r@, index_input(daily_levels@, lvn_levels@)),
            positive_strengths(r@),
            r.tolerance_of() == tolerance,
    {
        let mut input: Vec<KeyLevel> = Vec::new();
        let mut i: usize = 0;
        while i < daily_levels.len()
            invariant
                i <= daily_levels@.len(),
                input@ == daily_levels_seq(daily_levels@.take(i as int)),
                positive_strengths(input@),
            decreases daily_levels@.len() - i,
        {
            let d = &daily_levels[i];
            let ghost before = input@;
            input.push(KeyLevel { price: d.poc, level_type: LevelType::POC, date: d.date, strength_num: 1, strength_den: 1 });
            input.push(KeyLevel { price: d.vah, level_type: LevelType::VAH, date: d.date, strength_num: 1, strength_den: 1 });
            input.push(KeyLevel { price: d.val, level_type: LevelType::VAL, date: d.date, strength_num: 1, strength_den: 1 });
            input.push(KeyLevel { price: d.pdh, level_type: LevelType::PDH, date: d.date, strength_num: 1, strength_den: 1 });
            input.push(KeyLevel { price: d.pdl, level_type: LevelType::PDL, date: d.date, strength_num: 1, strength_den: 1 });
            input.push(KeyLevel { price: d.onh, level_type: LevelType::ONH, date: d.date, strength_num: 1, strength_den: 1 });
            input.push(KeyLevel { price: d.onl, level_type: LevelType::ONL, date: d.date, strength_num: 1, strength_den: 1 });
            proof {
                assert(daily_levels@.take(i + 1).drop_last() =~= daily_levels@.take(i as int));
                assert(daily_levels@.take(i + 1).last() == daily_levels@[i as int]);
                assert(input@ =~= before + daily_key_levels(daily_levels@[i as int]));
            }
            i += 1;
        }
        proof {
            assert(daily_levels@.take(i as int) =~= daily_levels@);
        }
        let ghost days = input@;
        let mut k: usize = 0;
        while k < lvn_levels.len()
            invariant
                k <= lvn_levels@.len(),
                input@ == days + lvn_levels@.take(k as int).map_values(|l: LvnLevel| lvn_key_level(l)),
                positive_strengths(input@),
            decreases lvn_levels@.len() - k,
        {
            let level = lvn_key_level_exec(&lvn_levels[k]);
            input.push(level);
            proof {
                assert(lvn_levels@.take(k + 1).map_values(|l: LvnLevel| lvn_key_level(l)) =~= lvn_levels@.take(
                    k as int,
                ).map_values(|l: LvnLevel| lvn_key_level(l)).push(level));
            }
            k += 1;
        }
        proof {
            assert(lvn_levels@.take(k as int) =~= lvn_levels@);
        }
        let levels = sort_by_price(&input);
        LevelIndex { levels, tolerance }
    }

    /// The levels of the day within the tolerance of the price, in price order.
    pub fn levels_near(&self, price: Price, date: i64) -> (r: Vec<KeyLevel>)
        ensures
            r@ == self@.filter(near(price, date, self.tolerance_of())),
    {
        let mut out: Vec<KeyLevel> = Vec::new();
        let mut i: usize = 0;
        while i < self.levels.len()
            invariant
                i <= self@.len(),
                out@ == self@.take(i as int).filter(near(price, date, self.tolerance_of())),
            decreases self@.len() - i,
        {
            let l = self.levels[i];
            proof {
                assert(self@.take(i + 1) =~= self@.take(i as int).push(l));
                self@.take(i as int).lemma_filter_push(l, near(price, date, self.tolerance_of()));
            }
            if l.date == date && price_distance(l.price, price) <= self.tolerance as i128 {
                out.push(l);
            }
            i += 1;
        }
        proof {
            assert(self@.take(i as int) =~= self@);
        }
        out
    }

    /// Whether some level of the day is within the tolerance of the price.
    pub fn is_at_level(&self, price: Price, date: i64) -> (r: bool)
        ensures
            r == (self@.filter(near(price, date, self.tolerance_of())).len() > 0),
    {
        self.levels_near(price, date).len() > 0
    }

    /// The strongest level of the day within the tolerance of the price (see `strongest`).
    pub fn strongest_level_near(&self, price: Price, date: i64) -> (r: Option<KeyLevel>)
        ensures
            r == strongest(self@.filter(near(price, date, self.tolerance_of()))),
    {
        let near_levels = self.levels_near(price, date);
        let mut best: Option<KeyLevel> = None;
        let mut i: usize = 0;
        while i < near_levels.len()
            invariant
                i <= near_levels@.len(),
                best == strongest(near_levels@.take(i as int)),
            decreases near_levels@.len() - i,
        {
            let l = near_levels[i];
            proof {
                assert(near_levels@.take(i + 1).drop_last() =~= near_levels@.take(i as int));
                assert(near_levels@.take(i + 1).last() == l);
            }
            best = match best {
                None => Some(l),
                Some(b) => if at_least_as_strong_exec(&l, &b) {
                    Some(l)
                } else {
                    Some(b)
                },
            };
            i += 1;
        }
        proof {
            assert(near_levels@.take(i as int) =~= near_levels@);
        }
        best
    }

    /// The levels of the day, in price order.
    pub fn levels_for_date(&self, date: i64) -> (r: Vec<KeyLevel>)
        ensures
            r@ == self@.filter(on_date(date)),
    {
        let mut out: Vec<KeyLevel> = Vec::new();
        let mut i: usize = 0;
        while i < self.levels.len()
            invariant
                i <= self@.len(),
                out@ == self@.take(i as int).filter(on_date(date)),
            decreases self@.len() - i,
        {
            let l = self.levels[i];
            proof {
                assert(self@.take(i + 1) =~= self@.take(i as int).push(l));
                self@.take(i as int).lemma_filter_push(l, on_date(date));
            }
            if l.date == date {
                out.push(l);
            }
            i += 1;
        }
        proof {
            assert(self@.take(i as int) =~= self@);
        }
        out
    }

    /// The number of levels.
    pub fn len(&self) -> (r: usize)
        ensures
            r == self@.len(),
    {
        self.levels.len()
    }

    /// Whether the index holds no level.
    pub fn is_empty(&self) -> (r: bool)
        ensures
            r == (self@.len() == 0),
    {
        self.levels.len() == 0
    }
}

/// Near a price, the index has a strongest level exactly when the price is at some level;
/// that level is one of the levels near the price, at least as strong as each of them.
pub proof fn lemma_strongest_near(index: &LevelIndex, price: Price, date: i64)
    requires
        positive_strengths(index@),
    ensures
        strongest(index@.filter(near(price, date, index.tolerance_of()))) is Some
            <==> index@.filter(near(price, date, index.tolerance_of())).len() > 0,
        strongest(index@.filter(near(price, date, index.tolerance_of()))) matches Some(b) ==> {
            &&& index@.filter(near(price, date, index.tolerance_of())).contains(b)
            &&& b.date == date && abs(b.price - price) <= index.tolerance_of()
            &&& forall|i: int| 0 <= i < index@.filter(near(price, date, index.tolerance_of())).len()
                ==> at_least_as_strong(b, #[trigger] index@.filter(near(price, date, index.tolerance_of()))[i])
        },
{
    let pred = near(price, date, index.tolerance_of());
    let s = index@.filter(pred);
    assert forall|i: int| 0 <= i < s.len() implies (#[trigger] s[i]).strength_den > 0 by {
        assert(s.contains(s[i]));
        index@.lemma_filter_contains_rev(pred, s[i]);
        let k = choose|k: int| 0 <= k < index@.len() && index@[k] == s[i];
        assert(index@[k].strength_den > 0);
    }
    lemma_strongest(s);
    if let Some(b) = strongest(s) {
        let k = choose|k: int| 0 <= k < s.len() && s[k] == b;
        index@.lemma_filter_pred(pred, k);
    }
}

} // verus!

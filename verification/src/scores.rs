//! Weighted sub-scores, league averages, Bayesian-shrunk ratings and
//! relative indexes.
//!
//! Weighted scores are kept in thousandths of a score point ("milli"), so
//! the fixed coefficients (0.03, 11.0, 1.4, 0.09, 6.0, 0.055, 0.085, 0.015)
//! become exact integers 30, 11000, 1400, 90, 6000, 55, 85 and 15. Averages,
//! ratings and indexes are exact fractions of those integers. The bounds on
//! counters, games and player counts keep every fraction inside the range
//! where comparisons cannot overflow.

use crate::rational::lemma_product_bounds;
use crate::rational::ratio_eqv;
use crate::rational::Rational;
use crate::stats::AggModel;
use crate::stats::AggregateStat;
use vstd::prelude::*;

verus! {

/// Largest aggregate counter value the exact scoring pipeline accepts.
pub const MAX_AGG_COUNTER: u64 = 16777216;

/// Largest number of players the exact scoring pipeline accepts.
pub const MAX_PLAYERS: usize = 2048;

/// Largest games-played count the exact scoring pipeline accepts.
pub const MAX_GAMES: u32 = 2048;

/// Bound on any weighted component (in milli), the total too: the
/// coefficients of a single component sum to less than 36000 milli.
pub const WEIGHT_BOUND: i64 = 36000 * 16777216;

/// passing = 0.03 * passing_blocks + 11.0 * touchdown_passes
///         - 1.4 * pass_interceptions, in milli.
pub open spec fn passing_milli(a: AggModel) -> int {
    30 * a.passing_blocks + 11000 * a.touchdown_passes - 1400 * a.pass_interceptions
}

/// receiving = 0.09 * catches + 0.03 * receive_blocks + 11.0 * touchdowns,
/// in milli.
pub open spec fn receiving_milli(a: AggModel) -> int {
    90 * a.catches + 30 * a.receive_blocks + 11000 * a.touchdowns
}

/// defense = 6.0 * defensive_interceptions + 6.0 * strips
///         + 0.055 * damage_carrier, in milli.
pub open spec fn defense_milli(a: AggModel) -> int {
    6000 * a.defensive_interceptions + 6000 * a.strips + 55 * a.damage_carrier
}

/// pvp = 0.085 * kills + 0.015 * damage_dealt, in milli.
pub open spec fn pvp_milli(a: AggModel) -> int {
    85 * a.kills + 15 * a.damage_dealt
}

/// offense = passing + receiving, in milli.
pub open spec fn offense_milli(a: AggModel) -> int {
    passing_milli(a) + receiving_milli(a)
}

/// total = offense + defense + pvp, in milli.
pub open spec fn total_milli(a: AggModel) -> int {
    offense_milli(a) + defense_milli(a) + pvp_milli(a)
}

/// The counters that feed the scoring formulas are within the range the
/// exact pipeline accepts.
pub open spec fn scoring_in_range(a: AggModel) -> bool {
    &&& 0 <= a.passing_blocks <= MAX_AGG_COUNTER
    &&& 0 <= a.touchdown_passes <= MAX_AGG_COUNTER
    &&& 0 <= a.pass_interceptions <= MAX_AGG_COUNTER
    &&& 0 <= a.catches <= MAX_AGG_COUNTER
    &&& 0 <= a.receive_blocks <= MAX_AGG_COUNTER
    &&& 0 <= a.touchdowns <= MAX_AGG_COUNTER
    &&& 0 <= a.defensive_interceptions <= MAX_AGG_COUNTER
    &&& 0 <= a.strips <= MAX_AGG_COUNTER
    &&& 0 <= a.damage_carrier <= MAX_AGG_COUNTER
    &&& 0 <= a.kills <= MAX_AGG_COUNTER
    &&& 0 <= a.damage_dealt <= MAX_AGG_COUNTER
}

/// A player's four weighted sub-scores, in milli.
#[derive(Clone, Copy, Debug, PartialEq, Eq, Structural)]
pub struct WeightedScores {
    pub passing: i64,
    pub receiving: i64,
    pub defense: i64,
    pub pvp: i64,
}

impl WeightedScores {
    /// Each component stays within the bound its own coefficients allow, so
    /// sums of components stay below [`WEIGHT_BOUND`].
    pub open spec fn wf(self) -> bool {
        &&& -12430 * (MAX_AGG_COUNTER as int) <= self.passing <= 12430 * (MAX_AGG_COUNTER as int)
        &&& -11120 * (MAX_AGG_COUNTER as int) <= self.receiving <= 11120 * (
        MAX_AGG_COUNTER as int)
        &&& -12055 * (MAX_AGG_COUNTER as int) <= self.defense <= 12055 * (MAX_AGG_COUNTER as int)
        &&& -100 * (MAX_AGG_COUNTER as int) <= self.pvp <= 100 * (MAX_AGG_COUNTER as int)
    }

    /// The four fixed linear formulas, applied to one cumulative record.
    pub fn from_aggregate(agg: &AggregateStat) -> (w: WeightedScores)
        requires
            scoring_in_range(agg.model()),
        ensures
            w.passing == passing_milli(agg.model()),
            w.receiving == receiving_milli(agg.model()),
            w.defense == defense_milli(agg.model()),
            w.pvp == pvp_milli(agg.model()),
            w.wf(),
    {
        WeightedScores {
            passing: 30 * (agg.passing_blocks as i64) + 11000 * (agg.touchdown_passes as i64)
                - 1400 * (agg.pass_interceptions as i64),
            receiving: 90 * (agg.catches as i64) + 30 * (agg.receive_blocks as i64) + 11000 * (
            agg.touchdowns as i64),
            defense: 6000 * (agg.defensive_interceptions as i64) + 6000 * (agg.strips as i64)
                + 55 * (agg.damage_carrier as i64),
            pvp: 85 * (agg.kills as i64) + 15 * (agg.damage_dealt as i64),
        }
    }

    /// The all-zero weighted scores.
    pub fn zero() -> (w: WeightedScores)
        ensures
            w.passing == 0 && w.receiving == 0 && w.defense == 0 && w.pvp == 0,
            w.wf(),
    {
        WeightedScores { passing: 0, receiving: 0, defense: 0, pvp: 0 }
    }

    /// offense = passing + receiving, in milli.
    pub fn offense(&self) -> (r: i64)
        requires
            self.wf(),
        ensures
            r == self.passing + self.receiving,
    {
        self.passing + self.receiving
    }

    /// total = offense + defense + pvp, in milli.
    pub fn total(&self) -> (r: i64)
        requires
            self.wf(),
        ensures
            r == self.passing + self.receiving + self.defense + self.pvp,
    {
        self.passing + self.receiving + self.defense + self.pvp
    }
}

/// Sum of the passing components of a sequence of weighted scores.
pub open spec fn sum_passing(ws: Seq<WeightedScores>) -> int
    decreases ws.len(),
{
    if ws.len() == 0 {
        0
    } else {
        sum_passing(ws.drop_last()) + ws.last().passing
    }
}

/// Sum of the receiving components of a sequence of weighted scores.
pub open spec fn sum_receiving(ws: Seq<WeightedScores>) -> int
    decreases ws.len(),
{
    if ws.len() == 0 {
        0
    } else {
        sum_receiving(ws.drop_last()) + ws.last().receiving
    }
}

/// Sum of the defense components of a sequence of weighted scores.
pub open spec fn sum_defense(ws: Seq<WeightedScores>) -> int
    decreases ws.len(),
{
    if ws.len() == 0 {
        0
    } else {
        sum_defense(ws.drop_last()) + ws.last().defense
    }
}

/// Sum of the pvp components of a sequence of weighted scores.
pub open spec fn sum_pvp(ws: Seq<WeightedScores>) -> int
    decreases ws.len(),
{
    if ws.len() == 0 {
        0
    } else {
        sum_pvp(ws.drop_last()) + ws.last().pvp
    }
}

/// The league average of each weighted component, kept exactly as the
/// component sums over the player population together with the player
/// count: the average itself is the fraction `sum / players`.
#[derive(Clone, Copy, Debug, PartialEq, Eq, Structural)]
pub struct LeagueAverage {
    pub passing_sum: i64,
    pub receiving_sum: i64,
    pub defense_sum: i64,
    pub pvp_sum: i64,
    pub players: u32,
}

impl LeagueAverage {
    pub open spec fn wf(self) -> bool {
        &&& 1 <= self.players <= MAX_PLAYERS
        &&& -(self.players as int) * 12430 * (MAX_AGG_COUNTER as int) <= self.passing_sum <= (
        self.players as int) * 12430 * (MAX_AGG_COUNTER as int)
        &&& -(self.players as int) * 11120 * (MAX_AGG_COUNTER as int) <= self.receiving_sum <= (
        self.players as int) * 11120 * (MAX_AGG_COUNTER as int)
        &&& -(self.players as int) * 12055 * (MAX_AGG_COUNTER as int) <= self.defense_sum <= (
        self.players as int) * 12055 * (MAX_AGG_COUNTER as int)
        &&& -(self.players as int) * 100 * (MAX_AGG_COUNTER as int) <= self.pvp_sum <= (
        self.players as int) * 100 * (MAX_AGG_COUNTER as int)
    }

    /// The arithmetic mean of each component over a non-empty population.
    pub fn from_weighted(ws: &Vec<WeightedScores>) -> (avg: LeagueAverage)
        requires
            1 <= ws.len() <= MAX_PLAYERS,
            forall|i: int| 0 <= i < ws.len() ==> (#[trigger] ws@[i]).wf(),
        ensures
            avg.passing_sum == sum_passing(ws@),
            avg.receiving_sum == sum_receiving(ws@),
            avg.defense_sum == sum_defense(ws@),
            avg.pvp_sum == sum_pvp(ws@),
            avg.players == ws.len(),
            avg.wf(),
    {
        let n = ws.len();
        let mut passing_sum: i64 = 0;
        let mut receiving_sum: i64 = 0;
        let mut defense_sum: i64 = 0;
        let mut pvp_sum: i64 = 0;
        let mut i: usize = 0;
        proof {
            assert(ws@.take(0) =~= Seq::<WeightedScores>::empty());
        }
        while i < n
            invariant
                0 <= i <= n,
                n == ws.len(),
                n <= MAX_PLAYERS,
                forall|j: int| 0 <= j < ws.len() ==> (#[trigger] ws@[j]).wf(),
                passing_sum == sum_passing(ws@.take(i as int)),
                receiving_sum == sum_receiving(ws@.take(i as int)),
                defense_sum == sum_defense(ws@.take(i as int)),
                pvp_sum == sum_pvp(ws@.take(i as int)),
                -(i as int) * 12430 * (MAX_AGG_COUNTER as int) <= passing_sum <= (i as int)
                    * 12430 * (MAX_AGG_COUNTER as int),
                -(i as int) * 11120 * (MAX_AGG_COUNTER as int) <= receiving_sum <= (i as int)
                    * 11120 * (MAX_AGG_COUNTER as int),
                -(i as int) * 12055 * (MAX_AGG_COUNTER as int) <= defense_sum <= (i as int)
                    * 12055 * (MAX_AGG_COUNTER as int),
                -(i as int) * 100 * (MAX_AGG_COUNTER as int) <= pvp_sum <= (i as int) * 100 * (
                MAX_AGG_COUNTER as int),
            decreases n - i,
        {
            let w = ws[i];
            proof {
                assert(ws@.take(i as int + 1).drop_last() =~= ws@.take(i as int));
                assert(ws@.take(i as int + 1).last() == ws@[i as int]);
            }
            passing_sum = passing_sum + w.passing;
            receiving_sum = receiving_sum + w.receiving;
            defense_sum = defense_sum + w.defense;
            pvp_sum = pvp_sum + w.pvp;
            i = i + 1;
        }
        proof {
            assert(ws@.take(n as int) =~= ws@);
        }
        LeagueAverage { passing_sum, receiving_sum, defense_sum, pvp_sum, players: n as u32 }
    }

    /// The average passing score (milli) as an exact fraction.
    pub fn avg_passing(&self) -> (r: Rational)
        requires
            self.wf(),
        ensures
            r == (Rational { num: self.passing_sum as i128, den: self.players as i128 }),
            r.wf(),
    {
        Rational { num: self.passing_sum as i128, den: self.players as i128 }
    }

    /// The average receiving score (milli) as an exact fraction.
    pub fn avg_receiving(&self) -> (r: Rational)
        requires
            self.wf(),
        ensures
            r == (Rational { num: self.receiving_sum as i128, den: self.players as i128 }),
            r.wf(),
    {
        Rational { num: self.receiving_sum as i128, den: self.players as i128 }
    }

    /// The average defense score (milli) as an exact fraction.
    pub fn avg_defense(&self) -> (r: Rational)
        requires
            self.wf(),
        ensures
            r == (Rational { num: self.defense_sum as i128, den: self.players as i128 }),
            r.wf(),
    {
        Rational { num: self.defense_sum as i128, den: self.players as i128 }
    }

    /// The average pvp score (milli) as an exact fraction.
    pub fn avg_pvp(&self) -> (r: Rational)
        requires
            self.wf(),
        ensures
            r == (Rational { num: self.pvp_sum as i128, den: self.players as i128 }),
            r.wf(),
    {
        Rational { num: self.pvp_sum as i128, den: self.players as i128 }
    }

    /// Sum of the offense components: offense averages like its parts.
    pub fn offense_sum(&self) -> (r: i64)
        requires
            self.wf(),
        ensures
            r == self.passing_sum + self.receiving_sum,
    {
        self.passing_sum + self.receiving_sum
    }

    /// Sum of the total components.
    pub fn total_sum(&self) -> (r: i64)
        requires
            self.wf(),
        ensures
            r == self.passing_sum + self.receiving_sum + self.defense_sum + self.pvp_sum,
    {
        self.passing_sum + self.receiving_sum + self.defense_sum + self.pvp_sum
    }
}

/// Bayesian shrinkage toward the league average with a prior weight of two
/// average games: `rating = (w * games + avg * 2) / (games + 2)` where
/// `avg = sum / n`, so as one exact fraction
/// `(w * games * n + 2 * sum) / (n * (games + 2))`, in milli.
pub open spec fn spec_rating(w: int, games: int, sum: int, n: int) -> Rational {
    Rational {
        num: (w * games * n + 2 * sum) as i128,
        den: (n * (games + 2)) as i128,
    }
}

/// The index of a rating relative to the league average `sum / n` (milli):
/// zero when the average's magnitude is at most 0.001 score points
/// (`|sum| <= n` in milli), else the exact quotient
/// `(w * games * n + 2 * sum) / ((games + 2) * sum)`, sign-normalized.
pub open spec fn spec_index(w: int, games: int, sum: int, n: int) -> Rational {
    if -n <= sum <= n {
        Rational::zero_spec()
    } else if sum > 0 {
        Rational {
            num: (w * games * n + 2 * sum) as i128,
            den: ((games + 2) * sum) as i128,
        }
    } else {
        Rational {
            num: (-(w * games * n + 2 * sum)) as i128,
            den: (-((games + 2) * sum)) as i128,
        }
    }
}

/// The component values `(w, sum)` stay inside the range where the shrink
/// and index fractions fit their bounds.
pub open spec fn component_in_range(w: int, games: int, sum: int, n: int) -> bool {
    &&& -(WEIGHT_BOUND as int) <= w <= WEIGHT_BOUND as int
    &&& 0 <= games <= MAX_GAMES as int
    &&& 1 <= n <= MAX_PLAYERS as int
    &&& -n * (WEIGHT_BOUND as int) <= sum <= n * (WEIGHT_BOUND as int)
}

/// Numerator and denominator of the shrink and index fractions stay within
/// the bound of a well-formed [`Rational`].
proof fn lemma_component_bounds(w: int, games: int, sum: int, n: int)
    requires
        component_in_range(w, games, sum, n),
    ensures
        -(WEIGHT_BOUND as int) * (MAX_GAMES as int) <= w * games <= (WEIGHT_BOUND as int) * (
        MAX_GAMES as int),
        -(WEIGHT_BOUND as int) * (MAX_GAMES as int) * (MAX_PLAYERS as int) <= w * games * n <= (
        WEIGHT_BOUND as int) * (MAX_GAMES as int) * (MAX_PLAYERS as int),
        -0x4000_0000_0000_0000 <= w * games * n + 2 * sum <= 0x4000_0000_0000_0000,
        -0x4000_0000_0000_0000 <= (games + 2) * sum <= 0x4000_0000_0000_0000,
        1 <= n * (games + 2) <= 0x4000_0000_0000_0000,
{
    lemma_product_bounds(w, games, WEIGHT_BOUND as int, MAX_GAMES as int);
    lemma_product_bounds(
        w * games,
        n,
        (WEIGHT_BOUND as int) * (MAX_GAMES as int),
        MAX_PLAYERS as int,
    );
    lemma_product_bounds(
        games + 2,
        sum,
        (MAX_GAMES as int) + 2,
        (MAX_PLAYERS as int) * (WEIGHT_BOUND as int),
    );
    assert(-(MAX_PLAYERS as int) * (WEIGHT_BOUND as int) <= sum <= (MAX_PLAYERS as int) * (
    WEIGHT_BOUND as int)) by (nonlinear_arith)
        requires
            1 <= n <= MAX_PLAYERS as int,
            -n * (WEIGHT_BOUND as int) <= sum <= n * (WEIGHT_BOUND as int),
    ;
    assert(1 <= n * (games + 2) <= (MAX_PLAYERS as int) * ((MAX_GAMES as int) + 2))
        by (nonlinear_arith)
        requires
            1 <= n <= MAX_PLAYERS as int,
            0 <= games <= MAX_GAMES as int,
    ;
}

/// The exact shrink fraction for one component.
fn rating_from(w: i64, games: u32, sum: i64, players: u32) -> (r: Rational)
    requires
        component_in_range(w as int, games as int, sum as int, players as int),
    ensures
        r == spec_rating(w as int, games as int, sum as int, players as int),
        r.wf(),
{
    proof {
        lemma_component_bounds(w as int, games as int, sum as int, players as int);
    }
    let num: i128 = (w as i128) * (games as i128) * (players as i128) + 2 * (sum as i128);
    let den: i128 = (players as i128) * (games as i128 + 2);
    Rational { num, den }
}

/// The exact index fraction for one component.
fn index_from(w: i64, games: u32, sum: i64, players: u32) -> (r: Rational)
    requires
        component_in_range(w as int, games as int, sum as int, players as int),
    ensures
        r == spec_index(w as int, games as int, sum as int, players as int),
        r.wf(),
{
    proof {
        lemma_component_bounds(w as int, games as int, sum as int, players as int);
    }
    let n = players as i128;
    let s = sum as i128;
    if -n <= s && s <= n {
        Rational::zero()
    } else {
        let num: i128 = (w as i128) * (games as i128) * n + 2 * s;
        let den: i128 = (games as i128 + 2) * s;
        if s > 0 {
            proof {
                assert((games as int + 2) * (sum as int) >= 1) by (nonlinear_arith)
                    requires
                        games as int >= 0,
                        sum as int >= 1,
                ;
            }
            Rational { num, den }
        } else {
            proof {
                assert((games as int + 2) * (sum as int) <= -1) by (nonlinear_arith)
                    requires
                        games as int >= 0,
                        sum as int <= -1,
                ;
            }
            Rational { num: -num, den: -den }
        }
    }
}

/// The six Bayesian-shrunk ratings of one player, each an exact fraction in
/// milli: passing, receiving, offense, defense, pvp and total, each shrunk
/// against its own league-average component.
#[derive(Clone, Copy, Debug, PartialEq, Eq, Structural)]
pub struct RatingScores {
    pub offense: Rational,
    pub passing: Rational,
    pub receiving: Rational,
    pub defense: Rational,
    pub pvp: Rational,
    pub total: Rational,
}

impl RatingScores {
    /// Shrink each of the six quantities toward its league average.
    pub fn from_weighted(w: &WeightedScores, games: u32, avg: &LeagueAverage) -> (r: RatingScores)
        requires
            w.wf(),
            avg.wf(),
            games <= MAX_GAMES,
        ensures
            r.passing == spec_rating(
                w.passing as int,
                games as int,
                avg.passing_sum as int,
                avg.players as int,
            ),
            r.receiving == spec_rating(
                w.receiving as int,
                games as int,
                avg.receiving_sum as int,
                avg.players as int,
            ),
            r.offense == spec_rating(
                w.passing + w.receiving,
                games as int,
                avg.passing_sum + avg.receiving_sum,
                avg.players as int,
            ),
            r.defense == spec_rating(
                w.defense as int,
                games as int,
                avg.defense_sum as int,
                avg.players as int,
            ),
            r.pvp == spec_rating(
                w.pvp as int,
                games as int,
                avg.pvp_sum as int,
                avg.players as int,
            ),
            r.total == spec_rating(
                w.passing + w.receiving + w.defense + w.pvp,
                games as int,
                avg.passing_sum + avg.receiving_sum + avg.defense_sum + avg.pvp_sum,
                avg.players as int,
            ),
            r.passing.wf() && r.receiving.wf() && r.offense.wf() && r.defense.wf() && r.pvp.wf()
                && r.total.wf(),
    {
        RatingScores {
            offense: rating_from(w.offense(), games, avg.offense_sum(), avg.players),
            passing: rating_from(w.passing, games, avg.passing_sum, avg.players),
            receiving: rating_from(w.receiving, games, avg.receiving_sum, avg.players),
            defense: rating_from(w.defense, games, avg.defense_sum, avg.players),
            pvp: rating_from(w.pvp, games, avg.pvp_sum, avg.players),
            total: rating_from(w.total(), games, avg.total_sum(), avg.players),
        }
    }
}

/// The six relative indexes of one player, each an exact fraction:
/// 1 denotes exactly the league average.
#[derive(Clone, Copy, Debug, PartialEq, Eq, Structural)]
pub struct IndexScores {
    pub offense: Rational,
    pub passing: Rational,
    pub receiving: Rational,
    pub defense: Rational,
    pub pvp: Rational,
    pub total: Rational,
}

impl IndexScores {
    /// Every index well-formed for comparison.
    pub open spec fn wf(self) -> bool {
        self.offense.wf() && self.passing.wf() && self.receiving.wf() && self.defense.wf()
            && self.pvp.wf() && self.total.wf()
    }

    /// All six indexes zero, as shown for a player without scores.
    pub fn zero() -> (r: IndexScores)
        ensures
            r.offense == Rational::zero_spec(),
            r.passing == Rational::zero_spec(),
            r.receiving == Rational::zero_spec(),
            r.defense == Rational::zero_spec(),
            r.pvp == Rational::zero_spec(),
            r.total == Rational::zero_spec(),
            r.wf(),
    {
        IndexScores {
            offense: Rational::zero(),
            passing: Rational::zero(),
            receiving: Rational::zero(),
            defense: Rational::zero(),
            pvp: Rational::zero(),
            total: Rational::zero(),
        }
    }

    /// The six indexes of one player: each shrunk rating divided by its
    /// league-average component, zero where that average is too small.
    pub fn from_weighted(w: &WeightedScores, games: u32, avg: &LeagueAverage) -> (r: IndexScores)
        requires
            w.wf(),
            avg.wf(),
            games <= MAX_GAMES,
        ensures
            r.passing == spec_index(
                w.passing as int,
                games as int,
                avg.passing_sum as int,
                avg.players as int,
            ),
            r.receiving == spec_index(
                w.receiving as int,
                games as int,
                avg.receiving_sum as int,
                avg.players as int,
            ),
            r.offense == spec_index(
                w.passing + w.receiving,
                games as int,
                avg.passing_sum + avg.receiving_sum,
                avg.players as int,
            ),
            r.defense == spec_index(
                w.defense as int,
                games as int,
                avg.defense_sum as int,
                avg.players as int,
            ),
            r.pvp == spec_index(
                w.pvp as int,
                games as int,
                avg.pvp_sum as int,
                avg.players as int,
            ),
            r.total == spec_index(
                w.passing + w.receiving + w.defense + w.pvp,
                games as int,
                avg.passing_sum + avg.receiving_sum + avg.defense_sum + avg.pvp_sum,
                avg.players as int,
            ),
            r.wf(),
    {
        IndexScores {
            offense: index_from(w.offense(), games, avg.offense_sum(), avg.players),
            passing: index_from(w.passing, games, avg.passing_sum, avg.players),
            receiving: index_from(w.receiving, games, avg.receiving_sum, avg.players),
            defense: index_from(w.defense, games, avg.defense_sum, avg.players),
            pvp: index_from(w.pvp, games, avg.pvp_sum, avg.players),
            total: index_from(w.total(), games, avg.total_sum(), avg.players),
        }
    }
}

/// Sum of the passing formula over a per-player table.
pub open spec fn sum_passing_aggs(aggs: Seq<(u128, AggregateStat)>) -> int
    decreases aggs.len(),
{
    if aggs.len() == 0 {
        0
    } else {
        sum_passing_aggs(aggs.drop_last()) + passing_milli(aggs.last().1.model())
    }
}

/// Sum of the receiving formula over a per-player table.
pub open spec fn sum_receiving_aggs(aggs: Seq<(u128, AggregateStat)>) -> int
    decreases aggs.len(),
{
    if aggs.len() == 0 {
        0
    } else {
        sum_receiving_aggs(aggs.drop_last()) + receiving_milli(aggs.last().1.model())
    }
}

/// Sum of the defense formula over a per-player table.
pub open spec fn sum_defense_aggs(aggs: Seq<(u128, AggregateStat)>) -> int
    decreases aggs.len(),
{
    if aggs.len() == 0 {
        0
    } else {
        sum_defense_aggs(aggs.drop_last()) + defense_milli(aggs.last().1.model())
    }
}

/// Sum of the pvp formula over a per-player table.
pub open spec fn sum_pvp_aggs(aggs: Seq<(u128, AggregateStat)>) -> int
    decreases aggs.len(),
{
    if aggs.len() == 0 {
        0
    } else {
        sum_pvp_aggs(aggs.drop_last()) + pvp_milli(aggs.last().1.model())
    }
}

/// Componentwise sums over the weighted scores of a table agree with the
/// sums of the formulas over the table itself.
proof fn lemma_sums_match(aggs: Seq<(u128, AggregateStat)>, ws: Seq<WeightedScores>)
    requires
        ws.len() == aggs.len(),
        forall|j: int|
            0 <= j < ws.len() ==> {
                &&& (#[trigger] ws[j]).passing == passing_milli(aggs[j].1.model())
                &&& ws[j].receiving == receiving_milli(aggs[j].1.model())
                &&& ws[j].defense == defense_milli(aggs[j].1.model())
                &&& ws[j].pvp == pvp_milli(aggs[j].1.model())
            },
    ensures
        sum_passing(ws) == sum_passing_aggs(aggs),
        sum_receiving(ws) == sum_receiving_aggs(aggs),
        sum_defense(ws) == sum_defense_aggs(aggs),
        sum_pvp(ws) == sum_pvp_aggs(aggs),
    decreases ws.len(),
{
    if ws.len() > 0 {
        assert(ws[ws.len() - 1].passing == passing_milli(aggs[aggs.len() - 1].1.model()));
        lemma_sums_match(aggs.drop_last(), ws.drop_last());
    }
}

/// The six index fractions of the player at position `i` of a per-player
/// table, each relative to the matching league-average component over the
/// whole table.
pub open spec fn spec_player_indexes(aggs: Seq<(u128, AggregateStat)>, i: int) -> IndexScores {
    let a = aggs[i].1.model();
    let g = a.games_played;
    let n = aggs.len() as int;
    let sp = sum_passing_aggs(aggs);
    let sr = sum_receiving_aggs(aggs);
    let sd = sum_defense_aggs(aggs);
    let sv = sum_pvp_aggs(aggs);
    IndexScores {
        offense: spec_index(offense_milli(a), g, sp + sr, n),
        passing: spec_index(passing_milli(a), g, sp, n),
        receiving: spec_index(receiving_milli(a), g, sr, n),
        defense: spec_index(defense_milli(a), g, sd, n),
        pvp: spec_index(pvp_milli(a), g, sv, n),
        total: spec_index(total_milli(a), g, sp + sr + sd + sv, n),
    }
}

/// Weigh every player of the table, average the components over the whole
/// table, shrink each player toward that average and express the result as
/// indexes. An empty table yields an empty result (no average exists).
pub fn calculate_player_indexes(aggs: &Vec<(u128, AggregateStat)>) -> (result: Vec<
    (u128, IndexScores),
>)
    requires
        aggs.len() <= MAX_PLAYERS,
        forall|i: int| 0 <= i < aggs.len() ==> scoring_in_range((#[trigger] aggs@[i]).1.model()),
        forall|i: int| 0 <= i < aggs.len() ==> (#[trigger] aggs@[i]).1.games_played <= MAX_GAMES,
    ensures
        result@.len() == aggs@.len(),
        forall|i: int| 0 <= i < result@.len() ==> (#[trigger] result@[i]).0 == aggs@[i].0,
        forall|i: int|
            0 <= i < result@.len() ==> (#[trigger] result@[i]).1 == spec_player_indexes(aggs@, i),
        forall|i: int| 0 <= i < result@.len() ==> (#[trigger] result@[i]).1.wf(),
{
    let n = aggs.len();
    let mut result: Vec<(u128, IndexScores)> = Vec::new();
    if n == 0 {
        return result;
    }
    let mut weighted: Vec<WeightedScores> = Vec::new();
    let mut i: usize = 0;
    while i < n
        invariant
            0 <= i <= n,
            n == aggs.len(),
            weighted@.len() == i,
            forall|j: int|
                0 <= j < aggs.len() ==> scoring_in_range((#[trigger] aggs@[j]).1.model()),
            forall|j: int|
                0 <= j < i ==> {
                    &&& (#[trigger] weighted@[j]).passing == passing_milli(aggs@[j].1.model())
                    &&& weighted@[j].receiving == receiving_milli(aggs@[j].1.model())
                    &&& weighted@[j].defense == defense_milli(aggs@[j].1.model())
                    &&& weighted@[j].pvp == pvp_milli(aggs@[j].1.model())
                    &&& weighted@[j].wf()
                },
        decreases n - i,
    {
        let w = WeightedScores::from_aggregate(&aggs[i].1);
        weighted.push(w);
        i = i + 1;
    }
    let avg = LeagueAverage::from_weighted(&weighted);
    proof {
        lemma_sums_match(aggs@, weighted@);
    }
    let mut k: usize = 0;
    while k < n
        invariant
            0 <= k <= n,
            n == aggs.len(),
            n == weighted@.len(),
            n <= MAX_PLAYERS,
            result@.len() == k,
            avg.wf(),
            avg.players == n,
            avg.passing_sum == sum_passing_aggs(aggs@),
            avg.receiving_sum == sum_receiving_aggs(aggs@),
            avg.defense_sum == sum_defense_aggs(aggs@),
            avg.pvp_sum == sum_pvp_aggs(aggs@),
            forall|j: int|
                0 <= j < aggs.len() ==> (#[trigger] aggs@[j]).1.games_played <= MAX_GAMES,
            forall|j: int|
                0 <= j < n ==> {
                    &&& (#[trigger] weighted@[j]).passing == passing_milli(aggs@[j].1.model())
                    &&& weighted@[j].receiving == receiving_milli(aggs@[j].1.model())
                    &&& weighted@[j].defense == defense_milli(aggs@[j].1.model())
                    &&& weighted@[j].pvp == pvp_milli(aggs@[j].1.model())
                    &&& weighted@[j].wf()
                },
            forall|j: int| 0 <= j < k ==> (#[trigger] result@[j]).0 == aggs@[j].0,
            forall|j: int|
                0 <= j < k ==> (#[trigger] result@[j]).1 == spec_player_indexes(aggs@, j),
            forall|j: int| 0 <= j < k ==> (#[trigger] result@[j]).1.wf(),
        decreases n - k,
    {
        let games = aggs[k].1.games_played;
        let idx = IndexScores::from_weighted(&weighted[k], games, &avg);
        result.push((aggs[k].0, idx));
        k = k + 1;
    }
    result
}

/// The bounds under which the exact pipeline accepts a per-player table:
/// at most [`MAX_PLAYERS`] players, every scored counter at most
/// [`MAX_AGG_COUNTER`], every games count at most [`MAX_GAMES`].
pub open spec fn table_in_bounds(aggs: Seq<(u128, AggregateStat)>) -> bool {
    &&& aggs.len() <= MAX_PLAYERS
    &&& forall|i: int| 0 <= i < aggs.len() ==> scoring_in_range((#[trigger] aggs[i]).1.model())
    &&& forall|i: int| 0 <= i < aggs.len() ==> (#[trigger] aggs[i]).1.games_played <= MAX_GAMES
}

/// Decide whether a per-player table is within the exact pipeline's bounds.
pub fn stats_in_bounds(aggs: &Vec<(u128, AggregateStat)>) -> (r: bool)
    ensures
        r == table_in_bounds(aggs@),
{
    let n = aggs.len();
    if n > MAX_PLAYERS {
        return false;
    }
    let mut i: usize = 0;
    while i < n
        invariant
            0 <= i <= n,
            n == aggs.len(),
            n <= MAX_PLAYERS,
            forall|j: int| 0 <= j < i ==> scoring_in_range((#[trigger] aggs@[j]).1.model()),
            forall|j: int| 0 <= j < i ==> (#[trigger] aggs@[j]).1.games_played <= MAX_GAMES,
        decreases n - i,
    {
        let a = aggs[i].1;
        let ok = a.passing_blocks <= MAX_AGG_COUNTER && a.touchdown_passes <= MAX_AGG_COUNTER
            && a.pass_interceptions <= MAX_AGG_COUNTER && a.catches <= MAX_AGG_COUNTER
            && a.receive_blocks <= MAX_AGG_COUNTER && a.touchdowns <= MAX_AGG_COUNTER
            && a.defensive_interceptions <= MAX_AGG_COUNTER && a.strips <= MAX_AGG_COUNTER
            && a.damage_carrier <= MAX_AGG_COUNTER && a.kills <= MAX_AGG_COUNTER
            && a.damage_dealt <= MAX_AGG_COUNTER && a.games_played <= MAX_GAMES;
        if !ok {
            proof {
                assert(!scoring_in_range(aggs@[i as int].1.model()) || aggs@[i as int
                ].1.games_played > MAX_GAMES);
            }
            return false;
        }
        i = i + 1;
    }
    true
}

/// Total version of [`calculate_player_indexes`]: the indexes when the
/// table is within the exact pipeline's bounds, `None` otherwise.
pub fn try_calculate_player_indexes(aggs: &Vec<(u128, AggregateStat)>) -> (r: Option<
    Vec<(u128, IndexScores)>,
>)
    ensures
        r is Some <==> table_in_bounds(aggs@),
        match r {
            Some(v) => {
                &&& v@.len() == aggs@.len()
                &&& forall|i: int| 0 <= i < v@.len() ==> (#[trigger] v@[i]).0 == aggs@[i].0
                &&& forall|i: int|
                    0 <= i < v@.len() ==> (#[trigger] v@[i]).1 == spec_player_indexes(aggs@, i)
                &&& forall|i: int| 0 <= i < v@.len() ==> (#[trigger] v@[i]).1.wf()
            },
            None => true,
        },
{
    if stats_in_bounds(aggs) {
        Some(calculate_player_indexes(aggs))
    } else {
        None
    }
}

/// Zero-game shrink identity: a player with no games rates exactly the
/// league average, for every component.
pub proof fn lemma_rating_zero_games(w: int, sum: int, n: int)
    requires
        component_in_range(w, 0, sum, n),
    ensures
        ratio_eqv(
            spec_rating(w, 0, sum, n),
            Rational { num: sum as i128, den: n as i128 },
        ),
{
    lemma_component_bounds(w, 0, sum, n);
    assert((2 * sum) * n == sum * (n * 2)) by (nonlinear_arith);
}

/// Below the safe-division guard the index is zeroed: whenever the league
/// average's magnitude is under 0.001 score points (`|sum| < n` in milli),
/// the index is exactly zero. The engine also zeroes the boundary itself
/// (`|sum| == n`, an average of exactly 0.001).
pub proof fn lemma_index_zero_when_avg_small(w: int, games: int, sum: int, n: int)
    requires
        component_in_range(w, games, sum, n),
        -n <= sum <= n,
    ensures
        spec_index(w, games, sum, n) == Rational::zero_spec(),
{
}

/// Above the guard the index is computed normally: it is exactly the shrunk
/// rating divided by the league average `sum / n`, i.e. index * avg ==
/// rating as fractions.
pub proof fn lemma_index_is_rating_over_average(w: int, games: int, sum: int, n: int)
    requires
        component_in_range(w, games, sum, n),
        sum < -n || n < sum,
    ensures
        (spec_index(w, games, sum, n).num as int) * sum * (spec_rating(w, games, sum, n).den
            as int) == (spec_rating(w, games, sum, n).num as int) * n * (spec_index(
            w,
            games,
            sum,
            n,
        ).den as int),
{
    lemma_component_bounds(w, games, sum, n);
    let num = w * games * n + 2 * sum;
    if sum > 0 {
        assert(num * sum * (n * (games + 2)) == num * n * ((games + 2) * sum))
            by (nonlinear_arith);
    } else {
        assert((-num) * sum * (n * (games + 2)) == num * n * (-((games + 2) * sum)))
            by (nonlinear_arith);
    }
}

} // verus!

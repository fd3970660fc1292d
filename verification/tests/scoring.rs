//! Unit tests of the weighting formulas, the shrink, the safe-division
//! guard and the exact fractions.

use ghast::model::generate_match_response;
use ghast::model::TournamentMatchMapping;
use ghast::rational::Rational;
use ghast::scores::IndexScores;
use ghast::scores::LeagueAverage;
use ghast::scores::RatingScores;
use ghast::scores::WeightedScores;
use ghast::stats::add_stats;
use ghast::stats::AggregateStat;
use ghast::stats::RawMatchStat;

/// The four fixed formulas on an exact example, in milli score points.
#[test]
fn weighted_formulas_exact() {
    let agg = AggregateStat {
        passing_blocks: 100,
        touchdown_passes: 2,
        pass_interceptions: 5,
        catches: 10,
        receive_blocks: 20,
        touchdowns: 3,
        defensive_interceptions: 4,
        strips: 2,
        damage_carrier: 200,
        kills: 40,
        damage_dealt: 1000,
        games_played: 1,
        ..Default::default()
    };
    let w = WeightedScores::from_aggregate(&agg);
    // passing = 0.03 * 100 + 11.0 * 2 - 1.4 * 5 = 3 + 22 - 7 = 18.0
    assert_eq!(w.passing, 18_000);
    // receiving = 0.09 * 10 + 0.03 * 20 + 11.0 * 3 = 0.9 + 0.6 + 33 = 34.5
    assert_eq!(w.receiving, 34_500);
    // defense = 6.0 * 4 + 6.0 * 2 + 0.055 * 200 = 24 + 12 + 11 = 47.0
    assert_eq!(w.defense, 47_000);
    // pvp = 0.085 * 40 + 0.015 * 1000 = 3.4 + 15 = 18.4
    assert_eq!(w.pvp, 18_400);
    assert_eq!(w.offense(), 52_500);
    assert_eq!(w.total(), 117_900);
}

/// Negative passing scores are legal: many interceptions, few touchdowns.
#[test]
fn weighted_passing_can_be_negative() {
    let agg = AggregateStat {
        pass_interceptions: 10,
        touchdown_passes: 1,
        games_played: 1,
        ..Default::default()
    };
    let w = WeightedScores::from_aggregate(&agg);
    // passing = 11.0 - 1.4 * 10 = -3.0
    assert_eq!(w.passing, -3_000);
}

/// Zero-game shrink identity: with games = 0 every rating equals the league
/// average exactly.
#[test]
fn zero_games_rating_is_average() {
    let w1 = WeightedScores {
        passing: 10_000,
        receiving: 2_000,
        defense: -500,
        pvp: 700,
    };
    let w2 = WeightedScores {
        passing: 4_000,
        receiving: 0,
        defense: 1_500,
        pvp: 300,
    };
    let avg = LeagueAverage::from_weighted(&vec![w1, w2]);
    let fresh = WeightedScores {
        passing: 123_000,
        receiving: 456,
        defense: 789,
        pvp: 1,
    };
    let rating = RatingScores::from_weighted(&fresh, 0, &avg);
    // rating = (w * 0 + avg * 2) / (0 + 2) = avg, for every component.
    assert!(rating.passing.eqv(&avg.avg_passing()));
    assert!(rating.receiving.eqv(&avg.avg_receiving()));
    assert!(rating.defense.eqv(&avg.avg_defense()));
    assert!(rating.pvp.eqv(&avg.avg_pvp()));
    let offense_avg = Rational {
        num: (avg.passing_sum + avg.receiving_sum) as i128,
        den: avg.players as i128,
    };
    assert!(rating.offense.eqv(&offense_avg));
}

/// Safe-division guard: an average of magnitude at most 0.001 score points
/// zeroes the index; anything above is divided normally.
#[test]
fn safe_division_guard() {
    // Two players, passing sum 2 milli: average is exactly 0.001 score
    // points, the guard's boundary, and the index is zeroed.
    let w1 = WeightedScores {
        passing: 3,
        receiving: 5,
        defense: 0,
        pvp: -1,
    };
    let w2 = WeightedScores {
        passing: -1,
        receiving: -3,
        defense: 0,
        pvp: -1,
    };
    let avg = LeagueAverage::from_weighted(&vec![w1, w2]);
    assert_eq!(avg.passing_sum, 2);
    let idx = IndexScores::from_weighted(&w1, 0, &avg);
    assert_eq!(idx.passing, Rational { num: 0, den: 1 });
    // receiving sum 2 as well; defense sum 0; pvp sum -2: all zeroed.
    assert_eq!(idx.receiving, Rational { num: 0, den: 1 });
    assert_eq!(idx.defense, Rational { num: 0, den: 1 });
    assert_eq!(idx.pvp, Rational { num: 0, den: 1 });

    // Passing sum 3 milli over 2 players: average 0.0015 > 0.001, divided
    // normally. With 0 games the rating is the average, so the index is 1.
    let w3 = WeightedScores {
        passing: 3,
        receiving: 0,
        defense: 0,
        pvp: 0,
    };
    let w4 = WeightedScores {
        passing: 0,
        receiving: 0,
        defense: 0,
        pvp: 0,
    };
    let avg2 = LeagueAverage::from_weighted(&vec![w3, w4]);
    assert_eq!(avg2.passing_sum, 3);
    let idx3 = IndexScores::from_weighted(&w3, 0, &avg2);
    // (w * g * n + 2 * sum) / ((g + 2) * sum) = 6 / 6 = 1.
    assert_eq!(idx3.passing, Rational { num: 6, den: 6 });
    assert!(idx3.passing.eqv(&Rational { num: 1, den: 1 }));

    // A negative average below the guard is divided normally too.
    let w5 = WeightedScores {
        passing: -9,
        receiving: 0,
        defense: 0,
        pvp: 0,
    };
    let avg3 = LeagueAverage::from_weighted(&vec![w5, w4]);
    assert_eq!(avg3.passing_sum, -9);
    let idx5 = IndexScores::from_weighted(&w5, 0, &avg3);
    // (0 + 2 * -9) / (2 * -9), sign-normalized to 18 / 18 = 1.
    assert_eq!(idx5.passing, Rational { num: 18, den: 18 });
}

/// Shrinkage pulls a high scorer's rating toward the average as the prior
/// demands: rating = (w * games + avg * 2) / (games + 2).
#[test]
fn shrink_exact_fraction() {
    let w1 = WeightedScores {
        passing: 30_000,
        receiving: 0,
        defense: 0,
        pvp: 0,
    };
    let w2 = WeightedScores {
        passing: 10_000,
        receiving: 0,
        defense: 0,
        pvp: 0,
    };
    let avg = LeagueAverage::from_weighted(&vec![w1, w2]);
    let rating = RatingScores::from_weighted(&w1, 4, &avg);
    // (30000 * 4 * 2 + 2 * 40000) / (2 * (4 + 2)) = 320000 / 12
    assert_eq!(
        rating.passing,
        Rational {
            num: 320_000,
            den: 12
        }
    );
    // 320000 / 12 ~ 26666.7 milli: between the player's 30000 and the
    // average 20000, nearer the player with four games of evidence.
    assert!(rating.passing.lt(&Rational {
        num: 30_000,
        den: 1
    }));
    assert!(Rational {
        num: 20_000,
        den: 1
    }
    .lt(&rating.passing));
}

/// add_stats sums every counter and takes the killstreak maximum.
#[test]
fn add_stats_counters() {
    let agg = AggregateStat {
        kills: 10,
        killstreak: 6,
        passes: 3,
        damage_dealt: 100,
        games_played: 2,
        time_played: 500,
        team: 4,
        ..Default::default()
    };
    let stat = RawMatchStat {
        kills: 5,
        killstreak: 4,
        passes: 2,
        damage_dealt: 50,
        ..Default::default()
    };
    let merged = add_stats(&agg, &stat);
    assert_eq!(merged.kills, 15);
    assert_eq!(merged.killstreak, 6);
    assert_eq!(merged.passes, 5);
    assert_eq!(merged.damage_dealt, 150);
    // Games, time and team are not touched by add_stats.
    assert_eq!(merged.games_played, 2);
    assert_eq!(merged.time_played, 500);
    assert_eq!(merged.team, 4);
}

/// Exact fraction comparison: equality of value, not of representation.
#[test]
fn rational_comparisons() {
    let half = Rational { num: 1, den: 2 };
    let two_quarters = Rational { num: 2, den: 4 };
    let third = Rational { num: 1, den: 3 };
    let neg = Rational { num: -1, den: 2 };
    assert!(half.eqv(&two_quarters));
    assert!(third.lt(&half));
    assert!(!half.lt(&two_quarters));
    assert!(neg.lt(&third));
    assert!(Rational::zero().lt(&half));
    assert!(neg.lt(&Rational::zero()));
}

/// The match response keeps every field of every row, in order.
#[test]
fn match_response_fields() {
    let rows = vec![
        TournamentMatchMapping {
            tournament_id: 1,
            match_id: 42,
            team_one_tournament_id: 7,
            team_two_tournament_id: 9,
            duration: 1200,
            server: String::from("alpha"),
            start_time: 1700000000,
            team_one_score: 3,
            team_two_score: 5,
        },
        TournamentMatchMapping {
            tournament_id: 1,
            match_id: 43,
            team_one_tournament_id: 9,
            team_two_tournament_id: 7,
            duration: 900,
            server: String::from("beta"),
            start_time: 1700005000,
            team_one_score: 2,
            team_two_score: 2,
        },
    ];
    let out = generate_match_response(&rows);
    assert_eq!(out.len(), 2);
    assert_eq!(out[0].match_id, 42);
    assert_eq!(out[0].server, "alpha");
    assert_eq!(out[0].team_one_id, 7);
    assert_eq!(out[0].team_two_id, 9);
    assert_eq!(out[0].team_one_score, 3);
    assert_eq!(out[0].team_two_score, 5);
    assert_eq!(out[0].duration, 1200);
    assert_eq!(out[0].start_time, 1700000000);
    assert_eq!(out[1].match_id, 43);
    assert_eq!(out[1].server, "beta");
}

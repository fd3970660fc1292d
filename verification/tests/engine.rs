//! End-to-end tests of the aggregation, scoring and award pipeline.

use ghast::awards::determine_awards;
use ghast::scores::calculate_player_indexes;
use ghast::scores::try_calculate_player_indexes;
use ghast::scores::MAX_AGG_COUNTER;
use ghast::stats::aggregate_player_stats;
use ghast::stats::lookup_aggregate;
use ghast::stats::AggregateStat;
use ghast::stats::RawMatchStat;
use ghast::stats::StatRecord;

fn record(match_id: u32, player: u128, stat: RawMatchStat) -> StatRecord {
    StatRecord {
        match_id,
        player,
        stat,
    }
}

/// Worked scenario: player A scores by receiving and pvp, player B by
/// passing; B's shrunk total index is higher, so B is MVP and A, still
/// eligible, takes the offensive award.
#[test]
fn worked_scenario_two_players() {
    let a: u128 = 1;
    let b: u128 = 2;
    let stat_a = RawMatchStat {
        touchdowns: 2,
        catches: 10,
        kills: 5,
        ..Default::default()
    };
    let stat_b = RawMatchStat {
        touchdown_passes: 3,
        passing_blocks: 5,
        ..Default::default()
    };
    let zero = RawMatchStat::default();
    let records = vec![
        record(1, a, stat_a),
        record(1, b, stat_b),
        record(2, a, zero),
        record(2, b, zero),
        record(3, a, zero),
        record(3, b, zero),
    ];
    let durations = vec![(1u32, 600u32), (2, 600), (3, 600)];
    let roster = vec![(a, 7i32), (b, 8i32)];

    let aggs = aggregate_player_stats(&records, &durations, &roster);
    assert_eq!(aggs.len(), 2);
    assert_eq!(aggs[0].0, a);
    assert_eq!(aggs[1].0, b);
    assert_eq!(aggs[0].1.games_played, 3);
    assert_eq!(aggs[1].1.games_played, 3);

    let indexes = calculate_player_indexes(&aggs);
    // receiving(A) = 0.09 * 10 + 11.0 * 2 = 22.9 score points = 22900 milli.
    // With 3 games and league sum 22900 over 2 players:
    // index = (22900 * 3 * 2 + 2 * 22900) / (5 * 22900)
    assert_eq!(indexes[0].1.receiving.num, 22900 * 6 + 2 * 22900);
    assert_eq!(indexes[0].1.receiving.den, 5 * 22900);
    // passing(B) = 0.03 * 5 + 11.0 * 3 = 33.15 score points = 33150 milli.
    assert_eq!(indexes[1].1.passing.num, 33150 * 6 + 2 * 33150);
    assert_eq!(indexes[1].1.passing.den, 5 * 33150);
    // total(A) = 23325 milli, total(B) = 33150 milli, league sum 56475.
    assert_eq!(indexes[0].1.total.num, 23325 * 6 + 2 * 56475);
    assert_eq!(indexes[0].1.total.den, 5 * 56475);
    assert_eq!(indexes[1].1.total.num, 33150 * 6 + 2 * 56475);
    assert_eq!(indexes[1].1.total.den, 5 * 56475);

    let awards = determine_awards(&indexes);
    // B's total index is higher, so B is MVP; A takes the offensive award.
    assert_eq!(awards.mvp, Some(b));
    assert_eq!(awards.opot, Some(a));
    // With both players awarded, the remaining slots stay empty.
    assert_eq!(awards.dpot, None);
    assert_eq!(awards.oldl, None);
    assert_eq!(awards.passer, None);
    assert_eq!(awards.receiver, None);
    // All-Tournament is sorted by total index, best first.
    assert_eq!(awards.all_tournament, vec![b, a]);
}

/// Summing a player's records in any permutation yields an identical
/// aggregate; the killstreak is the maximum, never the sum.
#[test]
fn aggregation_order_independent() {
    let p: u128 = 5;
    let q: u128 = 9;
    let s1 = RawMatchStat {
        kills: 3,
        killstreak: 3,
        catches: 2,
        damage_dealt: 100,
        ..Default::default()
    };
    let s2 = RawMatchStat {
        kills: 1,
        killstreak: 7,
        passes: 4,
        ..Default::default()
    };
    let s3 = RawMatchStat {
        kills: 2,
        killstreak: 5,
        ..Default::default()
    };
    let durations = vec![(1u32, 300u32), (2, 400), (3, 500)];
    let roster = vec![(p, 1i32)];
    let forward = vec![
        record(1, p, s1),
        record(2, p, s2),
        record(2, q, s3),
        record(3, p, s3),
    ];
    let backward = vec![
        record(3, p, s3),
        record(2, q, s3),
        record(2, p, s2),
        record(1, p, s1),
    ];
    let agg_f = aggregate_player_stats(&forward, &durations, &roster);
    let agg_b = aggregate_player_stats(&backward, &durations, &roster);
    assert_eq!(agg_f, agg_b);
    assert_eq!(agg_f[0].0, p);
    assert_eq!(agg_f[0].1.kills, 6);
    // Peak killstreak, not 3 + 7 + 5.
    assert_eq!(agg_f[0].1.killstreak, 7);
    assert_eq!(agg_f[0].1.games_played, 3);
    assert_eq!(agg_f[0].1.time_played, 300 + 400 + 500);
    assert_eq!(agg_f[0].1.team, 1);
    // q has no roster entry: team defaults to 0.
    assert_eq!(agg_f[1].0, q);
    assert_eq!(agg_f[1].1.team, 0);
    assert_eq!(agg_f[1].1.games_played, 1);
    assert_eq!(agg_f[1].1.time_played, 400);
}

/// Zero players: empty aggregate table, empty award slots, empty
/// All-Tournament list, and no division anywhere.
#[test]
fn empty_tournament() {
    let records: Vec<StatRecord> = Vec::new();
    let durations: Vec<(u32, u32)> = Vec::new();
    let roster: Vec<(u128, i32)> = Vec::new();
    let aggs = aggregate_player_stats(&records, &durations, &roster);
    assert_eq!(aggs.len(), 0);
    let indexes = calculate_player_indexes(&aggs);
    assert_eq!(indexes.len(), 0);
    let awards = determine_awards(&indexes);
    assert_eq!(awards.mvp, None);
    assert_eq!(awards.opot, None);
    assert_eq!(awards.dpot, None);
    assert_eq!(awards.oldl, None);
    assert_eq!(awards.passer, None);
    assert_eq!(awards.receiver, None);
    assert_eq!(awards.all_tournament.len(), 0);
}

/// Six distinct players with differentiated nonzero stats: the six award
/// slots reference six distinct players.
#[test]
fn award_uniqueness_six_players() {
    let mut records = Vec::new();
    for i in 0..7u32 {
        let p = (i + 1) as u128;
        let stat = RawMatchStat {
            kills: 10 + 13 * i,
            damage_dealt: 500 + 100 * i,
            catches: 5 + 7 * i,
            touchdowns: 1 + i % 3,
            touchdown_passes: 1 + (i * 2) % 5,
            passing_blocks: 20 + 3 * i,
            pass_interceptions: i % 2,
            defensive_interceptions: 2 + (i * 3) % 7,
            strips: 1 + i % 4,
            damage_carrier: 50 + 30 * i,
            receive_blocks: 10 + i,
            killstreak: 2 + i,
            ..Default::default()
        };
        records.push(record(1, p, stat));
        records.push(record(2, p, stat));
    }
    let durations = vec![(1u32, 600u32), (2, 600)];
    let roster: Vec<(u128, i32)> = (1..=7u128).map(|p| (p, p as i32)).collect();
    let aggs = aggregate_player_stats(&records, &durations, &roster);
    let indexes = calculate_player_indexes(&aggs);
    let awards = determine_awards(&indexes);
    let slots = [
        awards.mvp,
        awards.opot,
        awards.dpot,
        awards.oldl,
        awards.passer,
        awards.receiver,
    ];
    for s in slots.iter() {
        assert!(s.is_some());
    }
    for i in 0..6 {
        for j in (i + 1)..6 {
            assert_ne!(slots[i], slots[j]);
        }
    }
    // The All-Tournament list holds five of the seven players, sorted by
    // total index, best first.
    assert_eq!(awards.all_tournament.len(), 5);
    let total_of = |id: u128| -> ghast::rational::Rational {
        indexes.iter().find(|e| e.0 == id).unwrap().1.total
    };
    for w in awards.all_tournament.windows(2) {
        let hi = total_of(w[0]);
        let lo = total_of(w[1]);
        // hi >= lo as fractions (positive denominators).
        assert!(hi.num * lo.den >= lo.num * hi.den);
    }
}

/// Ties on every component go to the smallest player id.
#[test]
fn tie_break_smallest_id() {
    let s = RawMatchStat {
        kills: 4,
        catches: 3,
        touchdowns: 1,
        touchdown_passes: 1,
        passing_blocks: 10,
        defensive_interceptions: 1,
        strips: 1,
        damage_carrier: 100,
        damage_dealt: 200,
        receive_blocks: 5,
        ..Default::default()
    };
    let hi: u128 = 40;
    let lo: u128 = 17;
    let records = vec![record(1, hi, s), record(1, lo, s)];
    let durations = vec![(1u32, 600u32)];
    let roster = vec![(hi, 1i32), (lo, 2i32)];
    let aggs = aggregate_player_stats(&records, &durations, &roster);
    let indexes = calculate_player_indexes(&aggs);
    let awards = determine_awards(&indexes);
    // Identical stats: every score ties, and the smaller id wins MVP.
    assert_eq!(awards.mvp, Some(lo));
    assert_eq!(awards.opot, Some(hi));
    assert_eq!(awards.all_tournament, vec![lo, hi]);
}

/// The All-Tournament list never exceeds five entries.
#[test]
fn all_tournament_capped_at_five() {
    let mut records = Vec::new();
    for i in 0..9u32 {
        let p = (i + 1) as u128;
        let stat = RawMatchStat {
            kills: 1 + i,
            damage_dealt: 100 * (i + 1),
            ..Default::default()
        };
        records.push(record(1, p, stat));
    }
    let durations = vec![(1u32, 600u32)];
    let roster = Vec::new();
    let aggs = aggregate_player_stats(&records, &durations, &roster);
    let indexes = calculate_player_indexes(&aggs);
    let awards = determine_awards(&indexes);
    assert_eq!(awards.all_tournament.len(), 5);
    // The best pvp (and so total) belongs to the highest kill count.
    assert_eq!(awards.all_tournament[0], 9);
}

/// A roster player without any match record is absent from the aggregate
/// table; displaying them falls back to the zero-valued default.
#[test]
fn roster_player_without_stats() {
    let playing: u128 = 3;
    let idle: u128 = 4;
    let records = vec![record(
        1,
        playing,
        RawMatchStat {
            kills: 2,
            ..Default::default()
        },
    )];
    let durations = vec![(1u32, 240u32)];
    let roster = vec![(playing, 1i32), (idle, 2i32)];
    let aggs = aggregate_player_stats(&records, &durations, &roster);
    assert_eq!(aggs.len(), 1);
    assert_eq!(aggs[0].0, playing);
    let shown = lookup_aggregate(&aggs, idle, 2);
    assert_eq!(shown.games_played, 0);
    assert_eq!(shown.kills, 0);
    assert_eq!(shown.team, 2);
    let found = lookup_aggregate(&aggs, playing, 1);
    assert_eq!(found.kills, 2);
    assert_eq!(found.games_played, 1);
}

/// A counter beyond the exact pipeline's bound is rejected by the total
/// entry point and accepted below it.
#[test]
fn bounds_checked_entry() {
    let ok = AggregateStat {
        kills: MAX_AGG_COUNTER,
        games_played: 1,
        ..Default::default()
    };
    let over = AggregateStat {
        kills: MAX_AGG_COUNTER + 1,
        games_played: 1,
        ..Default::default()
    };
    let good: Vec<(u128, AggregateStat)> = vec![(1, ok)];
    let bad: Vec<(u128, AggregateStat)> = vec![(1, ok), (2, over)];
    assert!(try_calculate_player_indexes(&good).is_some());
    assert!(try_calculate_player_indexes(&bad).is_none());
}

/// Duplicate (match, player) pairs in the duration table: the first entry
/// wins; an unknown match contributes no time.
#[test]
fn durations_first_entry_wins() {
    let p: u128 = 11;
    let records = vec![
        record(1, p, RawMatchStat::default()),
        record(9, p, RawMatchStat::default()),
    ];
    let durations = vec![(1u32, 100u32), (1, 999)];
    let roster = Vec::new();
    let aggs = aggregate_player_stats(&records, &durations, &roster);
    // Match 1 counts 100 (first entry), match 9 is unknown and counts 0.
    assert_eq!(aggs[0].1.time_played, 100);
    assert_eq!(aggs[0].1.games_played, 2);
}

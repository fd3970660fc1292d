//! Raw per-match statistics and their aggregation into one cumulative record
//! per player.
//!
//! Every counter of a player's match records is summed, except the
//! killstreak, which is the peak over the player's matches. The aggregate
//! also counts the matches the player appeared in and sums their durations.
//! Damage totals are carried as whole points; callers that measure damage in
//! fractions round before handing the values in.

use vstd::math::max;
use vstd::prelude::*;
use vstd::seq_lib::commutative_foldl;
use vstd::seq_lib::lemma_fold_left_permutation;

verus! {

/// One player's counters for one match, as supplied by the data layer.
#[derive(Clone, Copy, Debug, Default, PartialEq, Eq, Structural)]
pub struct RawMatchStat {
    pub team: i32,
    pub kills: u32,
    pub deaths: u32,
    pub assists: u32,
    pub killstreak: u32,
    pub damage_dealt: u32,
    pub damage_taken: u32,
    pub pickups: u32,
    pub throws: u32,
    pub passes: u32,
    pub catches: u32,
    pub strips: u32,
    pub touchdowns: u32,
    pub touchdown_passes: u32,
    pub passing_blocks: u32,
    pub receive_blocks: u32,
    pub defensive_interceptions: u32,
    pub pass_interceptions: u32,
    pub damage_carrier: u32,
}

/// One (match, player, stat) triple of a tournament.
#[derive(Clone, Copy, Debug, PartialEq, Eq, Structural)]
pub struct StatRecord {
    pub match_id: u32,
    pub player: u128,
    pub stat: RawMatchStat,
}

/// A player's cumulative record for a tournament.
#[derive(Clone, Copy, Debug, Default, PartialEq, Eq, Structural)]
pub struct AggregateStat {
    pub team: i32,
    pub kills: u64,
    pub deaths: u64,
    pub assists: u64,
    pub killstreak: u32,
    pub damage_dealt: u64,
    pub damage_taken: u64,
    pub pickups: u64,
    pub throws: u64,
    pub passes: u64,
    pub catches: u64,
    pub strips: u64,
    pub touchdowns: u64,
    pub touchdown_passes: u64,
    pub passing_blocks: u64,
    pub receive_blocks: u64,
    pub defensive_interceptions: u64,
    pub pass_interceptions: u64,
    pub damage_carrier: u64,
    pub games_played: u32,
    pub time_played: u64,
}

/// The mathematical value of an [`AggregateStat`], free of machine bounds.
pub ghost struct AggModel {
    pub team: int,
    pub kills: int,
    pub deaths: int,
    pub assists: int,
    pub killstreak: int,
    pub damage_dealt: int,
    pub damage_taken: int,
    pub pickups: int,
    pub throws: int,
    pub passes: int,
    pub catches: int,
    pub strips: int,
    pub touchdowns: int,
    pub touchdown_passes: int,
    pub passing_blocks: int,
    pub receive_blocks: int,
    pub defensive_interceptions: int,
    pub pass_interceptions: int,
    pub damage_carrier: int,
    pub games_played: int,
    pub time_played: int,
}

impl AggregateStat {
    pub open spec fn model(self) -> AggModel {
        AggModel {
            team: self.team as int,
            kills: self.kills as int,
            deaths: self.deaths as int,
            assists: self.assists as int,
            killstreak: self.killstreak as int,
            damage_dealt: self.damage_dealt as int,
            damage_taken: self.damage_taken as int,
            pickups: self.pickups as int,
            throws: self.throws as int,
            passes: self.passes as int,
            catches: self.catches as int,
            strips: self.strips as int,
            touchdowns: self.touchdowns as int,
            touchdown_passes: self.touchdown_passes as int,
            passing_blocks: self.passing_blocks as int,
            receive_blocks: self.receive_blocks as int,
            defensive_interceptions: self.defensive_interceptions as int,
            pass_interceptions: self.pass_interceptions as int,
            damage_carrier: self.damage_carrier as int,
            games_played: self.games_played as int,
            time_played: self.time_played as int,
        }
    }

    /// The zero-valued record used for a player before their first match is
    /// merged, and as the default shown for roster players without stats.
    pub fn zeroed(team: i32) -> (r: AggregateStat)
        ensures
            r.model() == zero_agg(team as int),
    {
        AggregateStat {
            team,
            kills: 0,
            deaths: 0,
            assists: 0,
            killstreak: 0,
            damage_dealt: 0,
            damage_taken: 0,
            pickups: 0,
            throws: 0,
            passes: 0,
            catches: 0,
            strips: 0,
            touchdowns: 0,
            touchdown_passes: 0,
            passing_blocks: 0,
            receive_blocks: 0,
            defensive_interceptions: 0,
            pass_interceptions: 0,
            damage_carrier: 0,
            games_played: 0,
            time_played: 0,
        }
    }
}

/// The all-zero cumulative record of a player on the given team.
pub open spec fn zero_agg(team: int) -> AggModel {
    AggModel {
        team,
        kills: 0,
        deaths: 0,
        assists: 0,
        killstreak: 0,
        damage_dealt: 0,
        damage_taken: 0,
        pickups: 0,
        throws: 0,
        passes: 0,
        catches: 0,
        strips: 0,
        touchdowns: 0,
        touchdown_passes: 0,
        passing_blocks: 0,
        receive_blocks: 0,
        defensive_interceptions: 0,
        pass_interceptions: 0,
        damage_carrier: 0,
        games_played: 0,
        time_played: 0,
    }
}

/// Duration of the first entry for match `m`, or 0 for an unknown match.
pub open spec fn duration_of(durations: Seq<(u32, u32)>, m: u32) -> int
    decreases durations.len(),
{
    if durations.len() == 0 {
        0
    } else if durations.first().0 == m {
        durations.first().1 as int
    } else {
        duration_of(durations.drop_first(), m)
    }
}

/// Team of the first roster entry for player `p`, or 0 for a player without
/// a roster entry.
pub open spec fn team_of(roster: Seq<(u128, i32)>, p: u128) -> int
    decreases roster.len(),
{
    if roster.len() == 0 {
        0
    } else if roster.first().0 == p {
        roster.first().1 as int
    } else {
        team_of(roster.drop_first(), p)
    }
}

/// Add one match's counters into a cumulative record: every counter is
/// summed except the killstreak, which takes the maximum; team, games and
/// time are untouched.
pub open spec fn add_counters(acc: AggModel, s: RawMatchStat) -> AggModel {
    AggModel {
        kills: acc.kills + s.kills,
        deaths: acc.deaths + s.deaths,
        assists: acc.assists + s.assists,
        killstreak: max(acc.killstreak, s.killstreak as int),
        damage_dealt: acc.damage_dealt + s.damage_dealt,
        damage_taken: acc.damage_taken + s.damage_taken,
        pickups: acc.pickups + s.pickups,
        throws: acc.throws + s.throws,
        passes: acc.passes + s.passes,
        catches: acc.catches + s.catches,
        strips: acc.strips + s.strips,
        touchdowns: acc.touchdowns + s.touchdowns,
        touchdown_passes: acc.touchdown_passes + s.touchdown_passes,
        passing_blocks: acc.passing_blocks + s.passing_blocks,
        receive_blocks: acc.receive_blocks + s.receive_blocks,
        defensive_interceptions: acc.defensive_interceptions + s.defensive_interceptions,
        pass_interceptions: acc.pass_interceptions + s.pass_interceptions,
        damage_carrier: acc.damage_carrier + s.damage_carrier,
        ..acc
    }
}

/// Merge one full record: counters, one more game, the match's duration.
pub open spec fn merge_record(
    acc: AggModel,
    r: StatRecord,
    durations: Seq<(u32, u32)>,
) -> AggModel {
    AggModel {
        games_played: acc.games_played + 1,
        time_played: acc.time_played + duration_of(durations, r.match_id),
        ..add_counters(acc, r.stat)
    }
}

/// The fold step of aggregation for player `p`: records of other players
/// leave the accumulator unchanged.
pub open spec fn agg_step(
    durations: Seq<(u32, u32)>,
    p: u128,
) -> spec_fn(AggModel, StatRecord) -> AggModel {
    |acc: AggModel, r: StatRecord|
        if r.player == p {
            merge_record(acc, r, durations)
        } else {
            acc
        }
}

/// The cumulative record of player `p` over a sequence of records.
pub open spec fn player_aggregate(
    records: Seq<StatRecord>,
    durations: Seq<(u32, u32)>,
    roster: Seq<(u128, i32)>,
    p: u128,
) -> AggModel {
    records.fold_left(zero_agg(team_of(roster, p)), agg_step(durations, p))
}

/// Player `p` has at least one record.
pub open spec fn player_appears(records: Seq<StatRecord>, p: u128) -> bool {
    exists|k: int| 0 <= k < records.len() && records[k].player == p
}

/// The fold step treats the records of one player commutatively, so
/// aggregation cannot depend on the order of the records.
pub proof fn lemma_agg_step_commutes(durations: Seq<(u32, u32)>, p: u128)
    ensures
        commutative_foldl(agg_step(durations, p)),
{
    let f = agg_step(durations, p);
    assert forall|x: StatRecord, y: StatRecord, v: AggModel| #[trigger]
        f(f(v, x), y) == f(f(v, y), x) by {
        if x.player == p && y.player == p {
            assert(f(f(v, x), y) == f(f(v, y), x));
        }
    }
}

/// Aggregation is order independent: two sequences holding the same records
/// (in any order) give every player the same cumulative record; in
/// particular the killstreak is the maximum, never a sum.
pub proof fn lemma_aggregate_permutation(
    r1: Seq<StatRecord>,
    r2: Seq<StatRecord>,
    durations: Seq<(u32, u32)>,
    roster: Seq<(u128, i32)>,
    p: u128,
)
    requires
        r1.to_multiset() == r2.to_multiset(),
    ensures
        player_aggregate(r1, durations, roster, p) == player_aggregate(r2, durations, roster, p),
{
    lemma_agg_step_commutes(durations, p);
    lemma_fold_left_permutation(r1, r2, agg_step(durations, p), zero_agg(team_of(roster, p)));
}

/// Every field of a cumulative record over `records` is bounded by the
/// number of records times the largest single-match value.
pub proof fn lemma_aggregate_in_range(
    records: Seq<StatRecord>,
    durations: Seq<(u32, u32)>,
    roster: Seq<(u128, i32)>,
    p: u128,
)
    ensures
        ({
            let m = player_aggregate(records, durations, roster, p);
            &&& 0 <= m.kills <= records.len() * (u32::MAX as int)
            &&& 0 <= m.deaths <= records.len() * (u32::MAX as int)
            &&& 0 <= m.assists <= records.len() * (u32::MAX as int)
            &&& 0 <= m.killstreak <= u32::MAX as int
            &&& 0 <= m.damage_dealt <= records.len() * (u32::MAX as int)
            &&& 0 <= m.damage_taken <= records.len() * (u32::MAX as int)
            &&& 0 <= m.pickups <= records.len() * (u32::MAX as int)
            &&& 0 <= m.throws <= records.len() * (u32::MAX as int)
            &&& 0 <= m.passes <= records.len() * (u32::MAX as int)
            &&& 0 <= m.catches <= records.len() * (u32::MAX as int)
            &&& 0 <= m.strips <= records.len() * (u32::MAX as int)
            &&& 0 <= m.touchdowns <= records.len() * (u32::MAX as int)
            &&& 0 <= m.touchdown_passes <= records.len() * (u32::MAX as int)
            &&& 0 <= m.passing_blocks <= records.len() * (u32::MAX as int)
            &&& 0 <= m.receive_blocks <= records.len() * (u32::MAX as int)
            &&& 0 <= m.defensive_interceptions <= records.len() * (u32::MAX as int)
            &&& 0 <= m.pass_interceptions <= records.len() * (u32::MAX as int)
            &&& 0 <= m.damage_carrier <= records.len() * (u32::MAX as int)
            &&& 0 <= m.games_played <= records.len()
            &&& 0 <= m.time_played <= records.len() * (u32::MAX as int)
            &&& i32::MIN as int <= m.team <= i32::MAX as int
        }),
    decreases records.len(),
{
    if records.len() == 0 {
        lemma_team_of_in_range(roster, p);
    } else {
        lemma_aggregate_in_range(records.drop_last(), durations, roster, p);
        lemma_duration_of_in_range(durations, records.last().match_id);
        assert(records.drop_last().len() * (u32::MAX as int) + (u32::MAX as int) == records.len()
            * (u32::MAX as int)) by (nonlinear_arith)
            requires
                records.len() >= 1,
                records.drop_last().len() == records.len() - 1,
        ;
    }
}

/// A match duration read off the duration table is a `u32` value.
pub proof fn lemma_duration_of_in_range(durations: Seq<(u32, u32)>, m: u32)
    ensures
        0 <= duration_of(durations, m) <= u32::MAX as int,
    decreases durations.len(),
{
    if durations.len() > 0 && durations.first().0 != m {
        lemma_duration_of_in_range(durations.drop_first(), m);
    }
}

/// A team id read off the roster is an `i32` value.
pub proof fn lemma_team_of_in_range(roster: Seq<(u128, i32)>, p: u128)
    ensures
        i32::MIN as int <= team_of(roster, p) <= i32::MAX as int,
    decreases roster.len(),
{
    if roster.len() > 0 && roster.first().0 != p {
        lemma_team_of_in_range(roster.drop_first(), p);
    }
}

/// All seventeen sums of `agg` can absorb `stat` without leaving `u64`.
pub open spec fn sums_fit(agg: AggregateStat, stat: RawMatchStat) -> bool {
    &&& agg.kills + stat.kills <= u64::MAX
    &&& agg.deaths + stat.deaths <= u64::MAX
    &&& agg.assists + stat.assists <= u64::MAX
    &&& agg.damage_dealt + stat.damage_dealt <= u64::MAX
    &&& agg.damage_taken + stat.damage_taken <= u64::MAX
    &&& agg.pickups + stat.pickups <= u64::MAX
    &&& agg.throws + stat.throws <= u64::MAX
    &&& agg.passes + stat.passes <= u64::MAX
    &&& agg.catches + stat.catches <= u64::MAX
    &&& agg.strips + stat.strips <= u64::MAX
    &&& agg.touchdowns + stat.touchdowns <= u64::MAX
    &&& agg.touchdown_passes + stat.touchdown_passes <= u64::MAX
    &&& agg.passing_blocks + stat.passing_blocks <= u64::MAX
    &&& agg.receive_blocks + stat.receive_blocks <= u64::MAX
    &&& agg.defensive_interceptions + stat.defensive_interceptions <= u64::MAX
    &&& agg.pass_interceptions + stat.pass_interceptions <= u64::MAX
    &&& agg.damage_carrier + stat.damage_carrier <= u64::MAX
}

/// Merge one match's counters into a cumulative record: sums for every
/// counter, maximum for the killstreak; team, games and time are untouched.
pub fn add_stats(agg: &AggregateStat, stat: &RawMatchStat) -> (r: AggregateStat)
    requires
        sums_fit(*agg, *stat),
    ensures
        r.model() == add_counters(agg.model(), *stat),
{
    AggregateStat {
        kills: agg.kills + stat.kills as u64,
        deaths: agg.deaths + stat.deaths as u64,
        assists: agg.assists + stat.assists as u64,
        killstreak: if agg.killstreak >= stat.killstreak {
            agg.killstreak
        } else {
            stat.killstreak
        },
        damage_dealt: agg.damage_dealt + stat.damage_dealt as u64,
        damage_taken: agg.damage_taken + stat.damage_taken as u64,
        pickups: agg.pickups + stat.pickups as u64,
        throws: agg.throws + stat.throws as u64,
        passes: agg.passes + stat.passes as u64,
        catches: agg.catches + stat.catches as u64,
        strips: agg.strips + stat.strips as u64,
        touchdowns: agg.touchdowns + stat.touchdowns as u64,
        touchdown_passes: agg.touchdown_passes + stat.touchdown_passes as u64,
        passing_blocks: agg.passing_blocks + stat.passing_blocks as u64,
        receive_blocks: agg.receive_blocks + stat.receive_blocks as u64,
        defensive_interceptions: agg.defensive_interceptions
            + stat.defensive_interceptions as u64,
        pass_interceptions: agg.pass_interceptions + stat.pass_interceptions as u64,
        damage_carrier: agg.damage_carrier + stat.damage_carrier as u64,
        ..*agg
    }
}

/// Duration of match `m` per the duration table, 0 when the match is absent.
pub fn lookup_duration(durations: &Vec<(u32, u32)>, m: u32) -> (d: u32)
    ensures
        d as int == duration_of(durations@, m),
{
    let n = durations.len();
    let mut i: usize = 0;
    proof {
        assert(durations@.skip(0) =~= durations@);
    }
    while i < n
        invariant
            0 <= i <= n,
            n == durations.len(),
            duration_of(durations@, m) == duration_of(durations@.skip(i as int), m),
        decreases n - i,
    {
        let pair = durations[i];
        proof {
            assert(durations@.skip(i as int).first() == durations@[i as int]);
            assert(durations@.skip(i as int).drop_first() =~= durations@.skip(i as int + 1));
        }
        if pair.0 == m {
            return pair.1;
        }
        i = i + 1;
    }
    proof {
        assert(durations@.skip(n as int) =~= Seq::<(u32, u32)>::empty());
    }
    0
}

/// A player who appears in none of the records keeps the zero-valued record
/// on their roster team.
pub proof fn lemma_aggregate_absent(
    records: Seq<StatRecord>,
    durations: Seq<(u32, u32)>,
    roster: Seq<(u128, i32)>,
    p: u128,
)
    requires
        !player_appears(records, p),
    ensures
        player_aggregate(records, durations, roster, p) == zero_agg(team_of(roster, p)),
    decreases records.len(),
{
    if records.len() > 0 {
        assert(!player_appears(records.drop_last(), p)) by {
            if exists|k: int| 0 <= k < records.drop_last().len() && records.drop_last()[k].player
                == p {
                let k = choose|k: int|
                    0 <= k < records.drop_last().len() && records.drop_last()[k].player == p;
                assert(records[k].player == p);
            }
        }
        lemma_aggregate_absent(records.drop_last(), durations, roster, p);
        assert(records[records.len() - 1].player != p);
    }
}

/// One more record folded in: the aggregate over the first `k + 1` records
/// is the aggregate over the first `k` with record `k` merged on top.
pub proof fn lemma_aggregate_push(
    records: Seq<StatRecord>,
    k: int,
    durations: Seq<(u32, u32)>,
    roster: Seq<(u128, i32)>,
    p: u128,
)
    requires
        0 <= k < records.len(),
    ensures
        player_aggregate(records.take(k + 1), durations, roster, p) == agg_step(durations, p)(
            player_aggregate(records.take(k), durations, roster, p),
            records[k],
        ),
{
    assert(records.take(k + 1).drop_last() =~= records.take(k));
    assert(records.take(k + 1).last() == records[k]);
}

/// Team of player `p` per the roster, 0 when the player has no entry.
pub fn lookup_team(roster: &Vec<(u128, i32)>, p: u128) -> (t: i32)
    ensures
        t as int == team_of(roster@, p),
{
    let n = roster.len();
    let mut i: usize = 0;
    proof {
        assert(roster@.skip(0) =~= roster@);
    }
    while i < n
        invariant
            0 <= i <= n,
            n == roster.len(),
            team_of(roster@, p) == team_of(roster@.skip(i as int), p),
        decreases n - i,
    {
        let pair = roster[i];
        proof {
            assert(roster@.skip(i as int).first() == roster@[i as int]);
            assert(roster@.skip(i as int).drop_first() =~= roster@.skip(i as int + 1));
        }
        if pair.0 == p {
            return pair.1;
        }
        i = i + 1;
    }
    proof {
        assert(roster@.skip(n as int) =~= Seq::<(u128, i32)>::empty());
    }
    0
}

/// A per-player table sorted strictly by player id (so ids are unique).
pub open spec fn sorted_by_player(table: Seq<(u128, AggregateStat)>) -> bool {
    forall|i: int, j: int| 0 <= i < j < table.len() ==> table[i].0 < table[j].0
}

/// Player `p` has an entry in the per-player table.
pub open spec fn in_table(table: Seq<(u128, AggregateStat)>, p: u128) -> bool {
    exists|i: int| 0 <= i < table.len() && table[i].0 == p
}

/// Index of player `p` in a per-player table, if present.
fn find_player(table: &Vec<(u128, AggregateStat)>, p: u128) -> (r: Option<usize>)
    ensures
        match r {
            Some(i) => i < table.len() && table@[i as int].0 == p,
            None => forall|i: int| 0 <= i < table.len() ==> table@[i].0 != p,
        },
{
    let n = table.len();
    let mut i: usize = 0;
    while i < n
        invariant
            0 <= i <= n,
            n == table.len(),
            forall|j: int| 0 <= j < i ==> table@[j].0 != p,
        decreases n - i,
    {
        if table[i].0 == p {
            return Some(i);
        }
        i = i + 1;
    }
    None
}

/// The sorted list of distinct players named by the records.
fn collect_players(records: &Vec<StatRecord>) -> (players: Vec<u128>)
    ensures
        forall|i: int, j: int| 0 <= i < j < players@.len() ==> players@[i] < players@[j],
        forall|i: int| 0 <= i < players@.len() ==> player_appears(records@, #[trigger] players@[i]),
        forall|k: int|
            0 <= k < records@.len() ==> players@.contains((#[trigger] records@[k]).player),
{
    let n = records.len();
    let mut players: Vec<u128> = Vec::new();
    let mut k: usize = 0;
    while k < n
        invariant
            0 <= k <= n,
            n == records.len(),
            forall|i: int, j: int| 0 <= i < j < players@.len() ==> players@[i] < players@[j],
            forall|i: int|
                0 <= i < players@.len() ==> player_appears(records@, #[trigger] players@[i]),
            forall|kk: int|
                0 <= kk < k ==> players@.contains((#[trigger] records@[kk]).player),
        decreases n - k,
    {
        let p = records[k].player;
        let m = players.len();
        let mut pos: usize = 0;
        while pos < m && players[pos] < p
            invariant
                0 <= pos <= m,
                m == players.len(),
                forall|j: int| 0 <= j < pos ==> players@[j] < p,
            decreases m - pos,
        {
            pos = pos + 1;
        }
        if pos == m || players[pos] > p {
            let ghost old_players = players@;
            players.insert(pos, p);
            proof {
                assert(records@[k as int].player == p);
                assert(players@[pos as int] == p);
                assert forall|i: int, j: int|
                    0 <= i < j < players@.len() implies players@[i] < players@[j] by {
                    if i < pos as int && j > pos as int {
                        assert(players@[i] == old_players[i]);
                        assert(players@[j] == old_players[j - 1]);
                    } else if j < pos as int {
                        assert(players@[i] == old_players[i]);
                        assert(players@[j] == old_players[j]);
                    } else if i > pos as int {
                        assert(players@[i] == old_players[i - 1]);
                        assert(players@[j] == old_players[j - 1]);
                    } else if i == pos as int {
                        assert(players@[j] == old_players[j - 1]);
                    } else {
                        assert(players@[i] == old_players[i]);
                    }
                }
                assert forall|i: int|
                    0 <= i < players@.len() implies player_appears(
                    records@,
                    #[trigger] players@[i],
                ) by {
                    if i < pos as int {
                        assert(players@[i] == old_players[i]);
                    } else if i > pos as int {
                        assert(players@[i] == old_players[i - 1]);
                    }
                }
                assert forall|kk: int|
                    0 <= kk < k as int + 1 implies players@.contains(
                    (#[trigger] records@[kk]).player,
                ) by {
                    if kk < k as int {
                        let i0 = choose|i0: int|
                            0 <= i0 < old_players.len() && old_players[i0]
                                == records@[kk].player;
                        if i0 < pos as int {
                            assert(players@[i0] == records@[kk].player);
                        } else {
                            assert(players@[i0 + 1] == records@[kk].player);
                        }
                    } else {
                        assert(players@[pos as int] == records@[kk].player);
                    }
                }
            }
        } else {
            proof {
                assert(players@[pos as int] == p);
                assert(players@.contains(records@[k as int].player));
            }
        }
        k = k + 1;
    }
    players
}

/// One player's cumulative record over all records, computed by a fold in
/// record order.
fn compute_player_aggregate(
    records: &Vec<StatRecord>,
    durations: &Vec<(u32, u32)>,
    roster: &Vec<(u128, i32)>,
    p: u128,
) -> (r: AggregateStat)
    requires
        records.len() <= u32::MAX as usize,
    ensures
        r.model() == player_aggregate(records@, durations@, roster@, p),
{
    let n = records.len();
    let team = lookup_team(roster, p);
    let mut agg = AggregateStat::zeroed(team);
    let mut k: usize = 0;
    proof {
        assert(records@.take(0) =~= Seq::<StatRecord>::empty());
    }
    while k < n
        invariant
            0 <= k <= n,
            n == records.len(),
            n <= u32::MAX as usize,
            agg.model() == player_aggregate(records@.take(k as int), durations@, roster@, p),
        decreases n - k,
    {
        let r = records[k];
        proof {
            lemma_aggregate_push(records@, k as int, durations@, roster@, p);
        }
        if r.player == p {
            proof {
                lemma_aggregate_in_range(records@.take(k as int), durations@, roster@, p);
                assert(records@.take(k as int).len() == k as int);
                assert(k as int * (u32::MAX as int) + (u32::MAX as int) <= (u32::MAX as int)
                    * (u32::MAX as int)) by (nonlinear_arith)
                    requires
                        0 <= (k as int),
                        (k as int) < (u32::MAX as int),
                ;
            }
            let duration = lookup_duration(durations, r.match_id);
            let games = agg.games_played;
            let time = agg.time_played;
            agg = add_stats(&agg, &r.stat);
            agg.games_played = games + 1;
            agg.time_played = time + duration as u64;
            proof {
                assert(agg.model() == merge_record(
                    player_aggregate(records@.take(k as int), durations@, roster@, p),
                    r,
                    durations@,
                ));
            }
        }
        k = k + 1;
    }
    proof {
        assert(records@.take(n as int) =~= records@);
    }
    agg
}

/// Fold every (match, player, stat) record into one cumulative record per
/// player, sorted by player id. A player stands in the table exactly when
/// some record names them; their team comes from the roster (0 without a
/// roster entry) and their time played sums the durations of their matches.
pub fn aggregate_player_stats(
    records: &Vec<StatRecord>,
    durations: &Vec<(u32, u32)>,
    roster: &Vec<(u128, i32)>,
) -> (result: Vec<(u128, AggregateStat)>)
    requires
        records.len() <= u32::MAX as usize,
    ensures
        sorted_by_player(result@),
        forall|i: int|
            0 <= i < result@.len() ==> (#[trigger] result@[i]).1.model() == player_aggregate(
                records@,
                durations@,
                roster@,
                result@[i].0,
            ),
        forall|i: int| 0 <= i < result@.len() ==> player_appears(records@, (#[trigger] result@[i]).0),
        forall|k: int|
            0 <= k < records@.len() ==> in_table(result@, (#[trigger] records@[k]).player),
        records@.len() == 0 ==> result@.len() == 0,
{
    let players = collect_players(records);
    let n = players.len();
    let mut result: Vec<(u128, AggregateStat)> = Vec::new();
    let mut i: usize = 0;
    while i < n
        invariant
            0 <= i <= n,
            n == players.len(),
            records.len() <= u32::MAX as usize,
            result@.len() == i,
            forall|j: int| 0 <= j < i ==> (#[trigger] result@[j]).0 == players@[j],
            forall|j: int|
                0 <= j < i ==> (#[trigger] result@[j]).1.model() == player_aggregate(
                    records@,
                    durations@,
                    roster@,
                    players@[j],
                ),
            forall|a: int, b: int| 0 <= a < b < players@.len() ==> players@[a] < players@[b],
            forall|a: int|
                0 <= a < players@.len() ==> player_appears(records@, #[trigger] players@[a]),
            forall|k: int|
                0 <= k < records@.len() ==> players@.contains((#[trigger] records@[k]).player),
        decreases n - i,
    {
        let p = players[i];
        let agg = compute_player_aggregate(records, durations, roster, p);
        result.push((p, agg));
        i = i + 1;
    }
    proof {
        assert forall|k: int| 0 <= k < records@.len() implies in_table(
            result@,
            (#[trigger] records@[k]).player,
        ) by {
            assert(players@.contains(records@[k].player));
            let j = players@.index_of(records@[k].player);
            assert(0 <= j < players@.len() && players@[j] == records@[k].player);
            assert(result@.len() == players@.len());
            assert(result@[j].0 == records@[k].player);
        }
        if records@.len() == 0 && result@.len() > 0 {
            assert(player_appears(records@, players@[0]));
        }
    }
    result
}

/// The cumulative record shown for player `p`: their aggregated record when
/// present, else the zero-valued default on the given team.
pub fn lookup_aggregate(
    table: &Vec<(u128, AggregateStat)>,
    p: u128,
    team: i32,
) -> (r: AggregateStat)
    requires
        sorted_by_player(table@),
    ensures
        forall|i: int| 0 <= i < table@.len() && (#[trigger] table@[i]).0 == p ==> r == table@[i].1,
        (forall|i: int| 0 <= i < table@.len() ==> (#[trigger] table@[i]).0 != p) ==> r.model()
            == zero_agg(team as int),
{
    match find_player(table, p) {
        Some(i) => {
            let entry = table[i];
            entry.1
        },
        None => AggregateStat::zeroed(team),
    }
}

} // verus!

//! Greedy assignment of the six mutually exclusive awards, and the ordered
//! All-Tournament list.
//!
//! The awards are processed in a fixed priority order, each scored by one
//! index component. Each award goes to the eligible player with the highest
//! score; ties go to the smallest player id, an explicit and stable rule, so
//! the assignment is deterministic whatever order the players arrive in.
//! Every awarded player holds at most one award. The All-Tournament list is
//! the top five players by total index, picked independently of the awards.

use crate::rational::lemma_ratio_eqv_le;
use crate::rational::lemma_ratio_eqv_trans;
use crate::rational::lemma_ratio_lt_trans;
use crate::rational::ratio_eqv;
use crate::rational::ratio_le;
use crate::rational::ratio_lt;
use crate::rational::Rational;
use crate::scores::IndexScores;
use vstd::prelude::*;
use vstd::seq_lib::seq_to_set_is_finite;
use vstd::set_lib::lemma_len_subset;
use vstd::set_lib::lemma_subset_equality;

verus! {

/// The six award slots, named in their fixed priority order.
#[derive(Clone, Copy, Debug, PartialEq, Eq, Structural)]
pub enum Award {
    Mvp,
    Opot,
    Dpot,
    OlDl,
    Passer,
    Receiver,
}

impl Award {
    /// The index component that scores this award.
    pub open spec fn spec_score(self, idx: IndexScores) -> Rational {
        match self {
            Award::Mvp => idx.total,
            Award::Opot => idx.offense,
            Award::Dpot => idx.defense,
            Award::OlDl => idx.pvp,
            Award::Passer => idx.passing,
            Award::Receiver => idx.receiving,
        }
    }

    /// The award at priority position `k`: MVP first, the Offensive and
    /// Defensive Players of the Tournament next, the OL/DL award, Best
    /// Passer, and Best Receiver last.
    pub open spec fn at_priority(k: int) -> Award {
        if k == 0 {
            Award::Mvp
        } else if k == 1 {
            Award::Opot
        } else if k == 2 {
            Award::Dpot
        } else if k == 3 {
            Award::OlDl
        } else if k == 4 {
            Award::Passer
        } else {
            Award::Receiver
        }
    }

    /// The index component that scores this award.
    pub fn score(self, idx: &IndexScores) -> (r: Rational)
        ensures
            r == self.spec_score(*idx),
    {
        match self {
            Award::Mvp => idx.total,
            Award::Opot => idx.offense,
            Award::Dpot => idx.defense,
            Award::OlDl => idx.pvp,
            Award::Passer => idx.passing,
            Award::Receiver => idx.receiving,
        }
    }
}

/// No two entries of the table name the same player.
pub open spec fn distinct_ids(players: Seq<(u128, IndexScores)>) -> bool {
    forall|i: int, j: int| 0 <= i < j < players.len() ==> players[i].0 != players[j].0
}

/// Some entry of the table names player `id`.
pub open spec fn has_player(players: Seq<(u128, IndexScores)>, id: u128) -> bool {
    exists|j: int| 0 <= j < players.len() && players[j].0 == id
}

/// The entry at `k` exists and its player is not yet excluded.
pub open spec fn eligible(
    players: Seq<(u128, IndexScores)>,
    excluded: Seq<u128>,
    k: int,
) -> bool {
    0 <= k < players.len() && !excluded.contains(players[k].0)
}

/// Candidate `a` wins against candidate `b`: a strictly higher score, or an
/// equal score and an id at most `b`'s (ties go to the smallest id).
pub open spec fn beats(sa: Rational, ida: u128, sb: Rational, idb: u128) -> bool {
    ratio_lt(sb, sa) || (ratio_eqv(sa, sb) && ida <= idb)
}

/// The winner relation is transitive.
proof fn lemma_beats_trans(
    sa: Rational,
    ida: u128,
    sb: Rational,
    idb: u128,
    sc: Rational,
    idc: u128,
)
    requires
        sa.wf(),
        sb.wf(),
        sc.wf(),
        beats(sa, ida, sb, idb),
        beats(sb, idb, sc, idc),
    ensures
        beats(sa, ida, sc, idc),
{
    if ratio_lt(sb, sa) {
        if ratio_lt(sc, sb) {
            lemma_ratio_lt_trans(sc, sb, sa);
        } else {
            lemma_ratio_eqv_le(sb, sc, sa);
        }
    } else {
        if ratio_lt(sc, sb) {
            lemma_ratio_eqv_le(sa, sb, sc);
        } else {
            lemma_ratio_eqv_trans(sa, sb, sc);
        }
    }
}

/// The entry at `j` wins the award among the eligible players: it is
/// eligible and beats every eligible entry.
pub open spec fn is_winner_at(
    players: Seq<(u128, IndexScores)>,
    excluded: Seq<u128>,
    award: Award,
    j: int,
) -> bool {
    &&& eligible(players, excluded, j)
    &&& forall|k: int|
        eligible(players, excluded, k) ==> beats(
            award.spec_score(players[j].1),
            players[j].0,
            award.spec_score((#[trigger] players[k]).1),
            players[k].0,
        )
}

/// Player `id` wins the award among the players not yet excluded.
pub open spec fn is_winner(
    players: Seq<(u128, IndexScores)>,
    excluded: Seq<u128>,
    award: Award,
    id: u128,
) -> bool {
    exists|j: int|
        0 <= j < players.len() && players[j].0 == id && #[trigger] is_winner_at(
            players,
            excluded,
            award,
            j,
        )
}

/// Whether the id list holds `id`.
fn contains_id(ids: &Vec<u128>, id: u128) -> (r: bool)
    ensures
        r == ids@.contains(id),
{
    let n = ids.len();
    let mut i: usize = 0;
    while i < n
        invariant
            0 <= i <= n,
            n == ids.len(),
            forall|j: int| 0 <= j < i ==> ids@[j] != id,
        decreases n - i,
    {
        if ids[i] == id {
            return true;
        }
        i = i + 1;
    }
    false
}

/// The eligible player with the highest score for the award, ties to the
/// smallest id; `None` exactly when every player is excluded.
fn select_best(
    players: &Vec<(u128, IndexScores)>,
    excluded: &Vec<u128>,
    award: Award,
) -> (r: Option<u128>)
    requires
        forall|i: int| 0 <= i < players@.len() ==> (#[trigger] players@[i]).1.wf(),
    ensures
        match r {
            Some(id) => is_winner(players@, excluded@, award, id),
            None => forall|k: int|
                0 <= k < players@.len() ==> excluded@.contains((#[trigger] players@[k]).0),
        },
{
    let n = players.len();
    let mut best: Option<usize> = None;
    let mut i: usize = 0;
    while i < n
        invariant
            0 <= i <= n,
            n == players.len(),
            forall|j: int| 0 <= j < players@.len() ==> (#[trigger] players@[j]).1.wf(),
            match best {
                Some(b) => {
                    &&& (b as int) < i
                    &&& eligible(players@, excluded@, b as int)
                    &&& forall|k: int|
                        eligible(players@, excluded@, k) && k < i ==> beats(
                            award.spec_score(players@[b as int].1),
                            players@[b as int].0,
                            award.spec_score((#[trigger] players@[k]).1),
                            players@[k].0,
                        )
                },
                None => forall|k: int|
                    0 <= k < i ==> excluded@.contains((#[trigger] players@[k]).0),
            },
        decreases n - i,
    {
        let entry = players[i];
        if !contains_id(excluded, entry.0) {
            match best {
                None => {
                    best = Some(i);
                },
                Some(b) => {
                    let sb = award.score(&players[b].1);
                    let si = award.score(&entry.1);
                    if sb.lt(&si) || (sb.eqv(&si) && entry.0 < players[b].0) {
                        proof {
                            let old_b = b as int;
                            assert forall|k: int|
                                eligible(players@, excluded@, k) && k < i as int
                                    + 1 implies beats(
                                award.spec_score(players@[i as int].1),
                                players@[i as int].0,
                                award.spec_score((#[trigger] players@[k]).1),
                                players@[k].0,
                            ) by {
                                if k < i as int {
                                    lemma_beats_trans(
                                        award.spec_score(players@[i as int].1),
                                        players@[i as int].0,
                                        award.spec_score(players@[old_b].1),
                                        players@[old_b].0,
                                        award.spec_score(players@[k].1),
                                        players@[k].0,
                                    );
                                }
                            }
                        }
                        best = Some(i);
                    } else {
                        proof {
                            assert(beats(
                                award.spec_score(players@[b as int].1),
                                players@[b as int].0,
                                award.spec_score(players@[i as int].1),
                                players@[i as int].0,
                            ));
                        }
                    }
                },
            }
        }
        i = i + 1;
    }
    match best {
        Some(b) => {
            proof {
                assert(is_winner_at(players@, excluded@, award, b as int));
            }
            Some(players[b].0)
        },
        None => None,
    }
}

/// The ids of the table's players, in table order.
pub open spec fn player_ids(players: Seq<(u128, IndexScores)>) -> Seq<u128> {
    Seq::new(players.len(), |i: int| players[i].0)
}

/// When every player of a duplicate-free table is excluded, the exclusion
/// list is at least as long as the table.
proof fn lemma_all_excluded_bounds(players: Seq<(u128, IndexScores)>, excluded: Seq<u128>)
    requires
        distinct_ids(players),
        forall|k: int| 0 <= k < players.len() ==> excluded.contains((#[trigger] players[k]).0),
    ensures
        players.len() <= excluded.len(),
{
    let ids = player_ids(players);
    assert(ids.no_duplicates());
    ids.unique_seq_to_set();
    excluded.lemma_cardinality_of_set();
    assert forall|x: u128| ids.to_set().contains(x) implies excluded.to_set().contains(x) by {
        let j = choose|j: int| 0 <= j < ids.len() && ids[j] == x;
        assert(players[j].0 == x);
        assert(excluded.contains(x));
    }
    seq_to_set_is_finite(ids);
    seq_to_set_is_finite(excluded);
    lemma_len_subset(ids.to_set(), excluded.to_set());
}

/// An exclusion list without repeats, drawn from the table and at least as
/// long as it, covers every player of the table.
proof fn lemma_excluded_covers(players: Seq<(u128, IndexScores)>, excluded: Seq<u128>)
    requires
        distinct_ids(players),
        excluded.no_duplicates(),
        forall|i: int| 0 <= i < excluded.len() ==> has_player(players, #[trigger] excluded[i]),
        excluded.len() >= players.len(),
    ensures
        forall|k: int| 0 <= k < players.len() ==> excluded.contains((#[trigger] players[k]).0),
{
    let ids = player_ids(players);
    assert(ids.no_duplicates());
    ids.unique_seq_to_set();
    excluded.unique_seq_to_set();
    assert forall|x: u128| excluded.to_set().contains(x) implies ids.to_set().contains(x) by {
        let i = choose|i: int| 0 <= i < excluded.len() && excluded[i] == x;
        assert(has_player(players, x));
        let j = choose|j: int| 0 <= j < players.len() && players[j].0 == x;
        assert(ids[j] == x);
    }
    seq_to_set_is_finite(ids);
    seq_to_set_is_finite(excluded);
    lemma_len_subset(excluded.to_set(), ids.to_set());
    lemma_subset_equality(excluded.to_set(), ids.to_set());
    assert forall|k: int| 0 <= k < players.len() implies excluded.contains(
        (#[trigger] players[k]).0,
    ) by {
        assert(ids[k] == players[k].0);
        assert(ids.to_set().contains(players[k].0));
        assert(excluded.to_set().contains(players[k].0));
    }
}

/// Pick the winner of one award among the players not yet in the awarded
/// list, append them to the list and return them; `None` exactly when no
/// eligible player remains.
fn pick_award(
    players: &Vec<(u128, IndexScores)>,
    awarded: &mut Vec<u128>,
    award: Award,
) -> (r: Option<u128>)
    requires
        distinct_ids(players@),
        forall|i: int| 0 <= i < players@.len() ==> (#[trigger] players@[i]).1.wf(),
        old(awarded)@.no_duplicates(),
        forall|i: int|
            0 <= i < old(awarded)@.len() ==> has_player(players@, #[trigger] old(awarded)@[i]),
    ensures
        r is Some <==> old(awarded)@.len() < players@.len(),
        match r {
            Some(id) => {
                &&& is_winner(players@, old(awarded)@, award, id)
                &&& !old(awarded)@.contains(id)
                &&& final(awarded)@ == old(awarded)@.push(id)
            },
            None => final(awarded)@ == old(awarded)@,
        },
        final(awarded)@.no_duplicates(),
        forall|i: int|
            0 <= i < final(awarded)@.len() ==> has_player(players@, #[trigger] final(awarded)@[i]),
{
    let picked = select_best(players, awarded, award);
    match picked {
        Some(id) => {
            proof {
                let j = choose|j: int|
                    0 <= j < players@.len() && players@[j].0 == id && is_winner_at(
                        players@,
                        awarded@,
                        award,
                        j,
                    );
                assert(!awarded@.contains(id));
                if awarded@.len() >= players@.len() {
                    lemma_excluded_covers(players@, awarded@);
                    assert(awarded@.contains(players@[j].0));
                }
            }
            let ghost before = awarded@;
            awarded.push(id);
            proof {
                assert forall|a: int, b: int|
                    0 <= a < awarded@.len() && 0 <= b < awarded@.len() && a != b implies awarded@[a]
                    != awarded@[b] by {
                    if a < before.len() && b < before.len() {
                        assert(awarded@[a] == before[a]);
                        assert(awarded@[b] == before[b]);
                    } else if a == before.len() {
                        assert(awarded@[b] == before[b]);
                        assert(!before.contains(id));
                    } else {
                        assert(awarded@[a] == before[a]);
                        assert(!before.contains(id));
                    }
                }
            }
            Some(id)
        },
        None => {
            proof {
                lemma_all_excluded_bounds(players@, awarded@);
            }
            None
        },
    }
}

/// The index scores of the player with the given id (first match; all-zero
/// scores for an id outside the table).
pub open spec fn index_scores_of(players: Seq<(u128, IndexScores)>, id: u128) -> IndexScores
    decreases players.len(),
{
    if players.len() == 0 {
        IndexScores {
            offense: Rational::zero_spec(),
            passing: Rational::zero_spec(),
            receiving: Rational::zero_spec(),
            defense: Rational::zero_spec(),
            pvp: Rational::zero_spec(),
            total: Rational::zero_spec(),
        }
    } else if players.first().0 == id {
        players.first().1
    } else {
        index_scores_of(players.drop_first(), id)
    }
}

/// In a duplicate-free table the lookup by id returns the entry's scores.
pub proof fn lemma_index_scores_at(players: Seq<(u128, IndexScores)>, j: int)
    requires
        distinct_ids(players),
        0 <= j < players.len(),
    ensures
        index_scores_of(players, players[j].0) == players[j].1,
    decreases players.len(),
{
    if j == 0 {
    } else {
        assert(players.first().0 != players[j].0);
        assert(distinct_ids(players.drop_first())) by {
            assert(forall|a: int, b: int|
                0 <= a < b < players.drop_first().len() ==> players.drop_first()[a]
                    == players[a + 1] && players.drop_first()[b] == players[b + 1]);
        }
        lemma_index_scores_at(players.drop_first(), j - 1);
        assert(players.drop_first()[j - 1] == players[j]);
    }
}

/// The six award winners and the ordered All-Tournament list.
#[derive(Clone, Debug, PartialEq, Eq)]
pub struct AwardWinners {
    pub mvp: Option<u128>,
    pub opot: Option<u128>,
    pub dpot: Option<u128>,
    pub oldl: Option<u128>,
    pub passer: Option<u128>,
    pub receiver: Option<u128>,
    pub all_tournament: Vec<u128>,
}

impl AwardWinners {
    /// The slot at priority position `k`.
    pub open spec fn slot(self, k: int) -> Option<u128> {
        if k == 0 {
            self.mvp
        } else if k == 1 {
            self.opot
        } else if k == 2 {
            self.dpot
        } else if k == 3 {
            self.oldl
        } else if k == 4 {
            self.passer
        } else {
            self.receiver
        }
    }

    /// The winners of the awards before priority position `k`, in order.
    pub open spec fn winners_before(self, k: int) -> Seq<u128>
        decreases k,
    {
        if k <= 0 {
            Seq::empty()
        } else {
            match self.slot(k - 1) {
                Some(id) => self.winners_before(k - 1).push(id),
                None => self.winners_before(k - 1),
            }
        }
    }
}

/// Assign the six awards in their fixed priority order, each to the
/// eligible player with the highest score of the award's component (ties to
/// the smallest id), every awarded player receiving at most one award; and
/// pick the All-Tournament list, the top five players by total index,
/// independent of the award assignment. A slot stays empty exactly when no
/// eligible player remains.
pub fn determine_awards(players: &Vec<(u128, IndexScores)>) -> (r: AwardWinners)
    requires
        distinct_ids(players@),
        forall|i: int| 0 <= i < players@.len() ==> (#[trigger] players@[i]).1.wf(),
    ensures
        forall|k: int| 0 <= k < 6 ==> ((#[trigger] r.slot(k)) is Some <==> k < players@.len()),
        forall|k: int|
            0 <= k < 6 ==> match #[trigger] r.slot(k) {
                Some(id) => is_winner(players@, r.winners_before(k), Award::at_priority(k), id),
                None => true,
            },
        forall|j: int, k: int|
            0 <= j < k < 6 && r.slot(j) is Some && r.slot(k) is Some ==> r.slot(j) != r.slot(k),
        players@.len() >= 5 ==> r.all_tournament@.len() == 5,
        players@.len() < 5 ==> r.all_tournament@.len() == players@.len(),
        forall|i: int|
            0 <= i < r.all_tournament@.len() ==> is_winner(
                players@,
                r.all_tournament@.take(i),
                Award::Mvp,
                #[trigger] r.all_tournament@[i],
            ),
        r.all_tournament@.no_duplicates(),
        forall|i: int|
            0 <= i < r.all_tournament@.len() ==> has_player(
                players@,
                #[trigger] r.all_tournament@[i],
            ),
        forall|i: int, j: int|
            0 <= i < j < r.all_tournament@.len() ==> ratio_le(
                index_scores_of(players@, r.all_tournament@[j]).total,
                index_scores_of(players@, r.all_tournament@[i]).total,
            ),
{
    let ghost n = players@.len() as int;
    let mut awarded: Vec<u128> = Vec::new();
    let mvp = pick_award(players, &mut awarded, Award::Mvp);
    let ghost a1 = awarded@;
    let opot = pick_award(players, &mut awarded, Award::Opot);
    let ghost a2 = awarded@;
    let dpot = pick_award(players, &mut awarded, Award::Dpot);
    let ghost a3 = awarded@;
    let oldl = pick_award(players, &mut awarded, Award::OlDl);
    let ghost a4 = awarded@;
    let passer = pick_award(players, &mut awarded, Award::Passer);
    let ghost a5 = awarded@;
    let receiver = pick_award(players, &mut awarded, Award::Receiver);

    let mut picked: Vec<u128> = Vec::new();
    let mut step: usize = 0;
    while step < 5
        invariant
            0 <= step <= 5,
            distinct_ids(players@),
            forall|i: int| 0 <= i < players@.len() ==> (#[trigger] players@[i]).1.wf(),
            step as int <= players@.len() ==> picked@.len() == step,
            step as int > players@.len() ==> picked@.len() == players@.len(),
            picked@.no_duplicates(),
            forall|i: int|
                0 <= i < picked@.len() ==> has_player(players@, #[trigger] picked@[i]),
            forall|i: int|
                0 <= i < picked@.len() ==> is_winner(
                    players@,
                    picked@.take(i),
                    Award::Mvp,
                    #[trigger] picked@[i],
                ),
        decreases 5 - step,
    {
        let ghost before = picked@;
        let _next = pick_award(players, &mut picked, Award::Mvp);
        proof {
            if before.len() < players@.len() {
                assert(picked@ == before.push(picked@[before.len() as int]));
                assert(picked@.take(before.len() as int) =~= before);
                assert forall|i: int| 0 <= i < picked@.len() implies is_winner(
                    players@,
                    picked@.take(i),
                    Award::Mvp,
                    #[trigger] picked@[i],
                ) by {
                    if i < before.len() {
                        assert(picked@.take(i) =~= before.take(i));
                        assert(picked@[i] == before[i]);
                    }
                }
            }
        }
        step = step + 1;
    }

    let r = AwardWinners { mvp, opot, dpot, oldl, passer, receiver, all_tournament: picked };
    proof {
        assert(r.winners_before(0) =~= Seq::<u128>::empty());
        assert(r.winners_before(1) =~= a1);
        assert(r.winners_before(2) =~= a2);
        assert(r.winners_before(3) =~= a3);
        assert(r.winners_before(4) =~= a4);
        assert(r.winners_before(5) =~= a5);
        assert(a1.len() == if 0 < n { 1int } else { 0int });
        assert(a2.len() == if 1 < n { 2int } else { a1.len() as int });
        assert(a3.len() == if 2 < n { 3int } else { a2.len() as int });
        assert(a4.len() == if 3 < n { 4int } else { a3.len() as int });
        assert(a5.len() == if 4 < n { 5int } else { a4.len() as int });
        assert forall|j: int, k: int|
            0 <= j < k < 6 && r.slot(j) is Some && r.slot(k) is Some implies r.slot(j) != r.slot(
            k,
        ) by {
            if r.slot(j) != r.slot(k) {
            } else {
                let idj = choose|idj: u128| r.slot(j) == Some(idj);
                lemma_winner_stays_excluded(r, j, k, idj);
                assert(is_winner(players@, r.winners_before(k), Award::at_priority(k), idj));
                let p = choose|p: int|
                    0 <= p < players@.len() && players@[p].0 == idj && is_winner_at(
                        players@,
                        r.winners_before(k),
                        Award::at_priority(k),
                        p,
                    );
                assert(!r.winners_before(k).contains(players@[p].0));
            }
        }
        assert forall|i: int, j: int| 0 <= i < j < r.all_tournament@.len() implies ratio_le(
            index_scores_of(players@, r.all_tournament@[j]).total,
            index_scores_of(players@, r.all_tournament@[i]).total,
        ) by {
            let all = r.all_tournament@;
            let wi = all[i];
            let wj = all[j];
            assert(is_winner(players@, all.take(i), Award::Mvp, wi));
            assert(is_winner(players@, all.take(j), Award::Mvp, wj));
            let pi = choose|p: int|
                0 <= p < players@.len() && players@[p].0 == wi && is_winner_at(
                    players@,
                    all.take(i),
                    Award::Mvp,
                    p,
                );
            let pj = choose|p: int|
                0 <= p < players@.len() && players@[p].0 == wj && is_winner_at(
                    players@,
                    all.take(j),
                    Award::Mvp,
                    p,
                );
            assert(!all.take(i).contains(wj)) by {
                if all.take(i).contains(wj) {
                    let m = all.take(i).index_of(wj);
                    assert(all[m] == wj);
                    assert(all[m] == all[j]);
                }
            }
            assert(eligible(players@, all.take(i), pj));
            assert(beats(
                Award::Mvp.spec_score(players@[pi].1),
                players@[pi].0,
                Award::Mvp.spec_score(players@[pj].1),
                players@[pj].0,
            ));
            lemma_index_scores_at(players@, pi);
            lemma_index_scores_at(players@, pj);
        }
    }
    r
}

/// An earlier winner stays in the exclusion list of every later award.
proof fn lemma_winner_stays_excluded(r: AwardWinners, j: int, k: int, id: u128)
    requires
        0 <= j < k,
        r.slot(j) == Some(id),
    ensures
        r.winners_before(k).contains(id),
    decreases k,
{
    if k == j + 1 {
        assert(r.winners_before(k) == r.winners_before(j).push(id));
        assert(r.winners_before(k).last() == id);
    } else {
        lemma_winner_stays_excluded(r, j, k - 1, id);
        match r.slot(k - 1) {
            Some(w) => {
                assert(r.winners_before(k) == r.winners_before(k - 1).push(w));
                let s = r.winners_before(k - 1);
                let m = s.index_of(id);
                assert(0 <= m < s.len() && s[m] == id);
                assert(r.winners_before(k)[m] == id);
            },
            None => {},
        }
    }
}

} // verus!

//! The standings deriver: from the parsed matches, in stored order, the
//! flat ordered list of players that should receive win and ranking credit.
//! A non-`Final` match contributes only its players whose life status is
//! not `Alive`; a `Final` match contributes every player, since finishing
//! position there defines the overall outcome.

use vstd::prelude::*;

use crate::records::{Match, MatchUser, MatchView, PlayerView};
use crate::tokens::{LifeStatus, MatchType};

verus! {

/// The players of one block that register for the standings, in file
/// order: all of them when `keep_all`, otherwise those not `Alive`.
pub open spec fn spec_kept_players(ps: Seq<PlayerView>, keep_all: bool) -> Seq<PlayerView>
    decreases ps.len(),
{
    if ps.len() == 0 {
        Seq::empty()
    } else {
        let rest = spec_kept_players(ps.drop_first(), keep_all);
        if keep_all || ps[0].life_status != LifeStatus::Alive {
            seq![ps[0]] + rest
        } else {
            rest
        }
    }
}

/// The standings-relevant players of one match: every player of a `Final`,
/// otherwise the players that are not `Alive`.
pub open spec fn spec_match_kept(m: MatchView) -> Seq<PlayerView> {
    spec_kept_players(m.players, m.match_type == MatchType::Final)
}

/// The overall player list: the kept players of each match, concatenated
/// in match order.
pub open spec fn spec_overall(ms: Seq<MatchView>) -> Seq<PlayerView>
    decreases ms.len(),
{
    if ms.len() == 0 {
        Seq::empty()
    } else {
        spec_match_kept(ms[0]) + spec_overall(ms.drop_first())
    }
}

/// Derives the overall player list from the parsed matches.  The result is
/// exactly [`spec_overall`] of the matches' views: match order first, then
/// within-match file order — the order downstream ranking updates depend
/// on.  It never fails; an empty match list yields an empty result.
#[verifier::loop_isolation(false)]
pub fn get_overall_player_list(matches: Vec<Match>) -> (r: Vec<MatchUser>)
    ensures
        r@.map_values(|p: MatchUser| p@) == spec_overall(matches@.map_values(|m: Match| m@)),
{
    let ghost msv = matches@.map_values(|m: Match| m@);
    let mut rest = matches;
    let mut players: Vec<MatchUser> = Vec::new();
    proof {
        assert(players@.map_values(|p: MatchUser| p@) + spec_overall(
            rest@.map_values(|m: Match| m@),
        ) =~= spec_overall(msv));
    }
    while rest.len() > 0
        invariant
            players@.map_values(|p: MatchUser| p@) + spec_overall(
                rest@.map_values(|m: Match| m@),
            ) == spec_overall(msv),
        decreases rest@.len(),
    {
        let ghost restv = rest@.map_values(|m: Match| m@);
        let m = rest.remove(0);
        proof {
            assert(rest@.map_values(|m2: Match| m2@) =~= restv.drop_first());
            assert(restv[0] == m@);
        }
        let keep_all = m.match_type == MatchType::Final;
        let ghost entry_players = players@.map_values(|p: MatchUser| p@);
        let mut ps = m.players;
        proof {
            assert(spec_overall(restv) == spec_kept_players(ps@.map_values(|p: MatchUser| p@), keep_all)
                + spec_overall(restv.drop_first()));
        }
        while ps.len() > 0
            invariant
                players@.map_values(|p: MatchUser| p@) + spec_kept_players(
                    ps@.map_values(|p: MatchUser| p@),
                    keep_all,
                ) + spec_overall(restv.drop_first()) == spec_overall(msv),
            decreases ps@.len(),
        {
            let ghost psv = ps@.map_values(|p: MatchUser| p@);
            let p = ps.remove(0);
            proof {
                assert(ps@.map_values(|q: MatchUser| q@) =~= psv.drop_first());
                assert(psv[0] == p@);
            }
            if keep_all || p.life_status != LifeStatus::Alive {
                let ghost pl = players@.map_values(|q: MatchUser| q@);
                players.push(p);
                proof {
                    assert(players@.map_values(|q: MatchUser| q@) =~= pl.push(psv[0]));
                    assert(pl.push(psv[0]) + spec_kept_players(psv.drop_first(), keep_all) =~= pl
                        + (seq![psv[0]] + spec_kept_players(psv.drop_first(), keep_all)));
                }
            }
        }
        proof {
            assert(ps@.map_values(|p: MatchUser| p@) =~= Seq::<PlayerView>::empty());
            assert(players@.map_values(|p: MatchUser| p@) + Seq::<PlayerView>::empty() =~= players@.map_values(
                |p: MatchUser| p@,
            ));
            assert(players@.map_values(|p: MatchUser| p@) + spec_overall(restv.drop_first())
                =~= players@.map_values(|p: MatchUser| p@) + Seq::<PlayerView>::empty()
                + spec_overall(restv.drop_first()));
        }
    }
    proof {
        assert(rest@.map_values(|m: Match| m@) =~= Seq::<MatchView>::empty());
        assert(players@.map_values(|p: MatchUser| p@) =~= players@.map_values(|p: MatchUser| p@)
            + spec_overall(rest@.map_values(|m: Match| m@)));
    }
    players
}

/// Keeping everything keeps the sequence unchanged.
proof fn lemma_kept_all(ps: Seq<PlayerView>)
    ensures
        spec_kept_players(ps, true) == ps,
    decreases ps.len(),
{
    if ps.len() > 0 {
        lemma_kept_all(ps.drop_first());
        assert(seq![ps[0]] + ps.drop_first() =~= ps);
    }
}

/// Keeping nothing but non-`Alive` players of an all-`Alive` sequence
/// keeps nothing.
proof fn lemma_kept_none_alive(ps: Seq<PlayerView>)
    requires
        forall|k: int| 0 <= k < ps.len() ==> (#[trigger] ps[k]).life_status == LifeStatus::Alive,
    ensures
        spec_kept_players(ps, false) == Seq::<PlayerView>::empty(),
    decreases ps.len(),
{
    if ps.len() > 0 {
        assert(forall|k: int|
            0 <= k < ps.drop_first().len() ==> (#[trigger] ps.drop_first()[k]).life_status
                == LifeStatus::Alive);
        lemma_kept_none_alive(ps.drop_first());
    }
}

/// Law: a `Final` match contributes all of its players, unfiltered, even
/// when every player's life status is `Alive`.
pub proof fn lemma_final_match_keeps_all(m: MatchView)
    requires
        m.match_type == MatchType::Final,
    ensures
        spec_match_kept(m) == m.players,
{
    lemma_kept_all(m.players);
}

/// Law: a non-`Final` match whose players are all `Alive` contributes no
/// player at all.
pub proof fn lemma_non_final_all_alive_keeps_none(m: MatchView)
    requires
        m.match_type != MatchType::Final,
        forall|k: int| 0 <= k < m.players.len() ==> (#[trigger] m.players[k]).life_status
            == LifeStatus::Alive,
    ensures
        spec_match_kept(m) == Seq::<PlayerView>::empty(),
{
    lemma_kept_none_alive(m.players);
}

/// Law: the derivation is a pure function of the match list — deriving the
/// overall player list twice from the same matches yields identical ordered
/// output.
pub proof fn lemma_overall_deterministic(ms1: Seq<MatchView>, ms2: Seq<MatchView>)
    requires
        ms1 == ms2,
    ensures
        spec_overall(ms1) == spec_overall(ms2),
{
}

} // verus!

use vstd::prelude::*;

use crate::client::{clients, is_roster, with_spectator_flag, Client};
use crate::clientinfo::spec_clientinfo_strings;
use crate::error::Error;
use crate::flags::{
    flag_entry, flag_events_per_player_name, flag_tally_view, no_events, spec_flag_events,
    FlagTallyView, PlayerFlagEvents,
};
use crate::frags::{
    add_score, distinct_names, initial_scores, initial_tally, lemma_initial_distinct,
    lemma_tally_add_distinct, tally_add, tally_view, TallyView,
};

verus! {

/// Points for capturing the flag.
pub const CAPTURE: i32 = 15;

/// Points for each teammate of a capturer.
pub const CAPTURE_TEAM: i32 = 10;

/// Points for defending the flag carrier.
pub const CARRIER_DEFEND: i32 = 1;

/// Points for defending the flag carrier against an aggressive enemy.
pub const CARRIER_DEFEND_VS_AGGRESSIVE: i32 = 2;

/// Points for fragging the enemy flag carrier.
pub const CARRIER_FRAG: i32 = 2;

/// Points for defending the flag.
pub const FLAG_DEFEND: i32 = 2;

/// Points for returning the flag.
pub const RETURN_FLAG: i32 = 1;

/// Flag points of one player: those it earns itself, and those each of its
/// teammates earns from it.
#[derive(Clone, Copy, Debug, Default, PartialEq, Eq, Structural)]
pub struct CtfPoints {
    pub player: i32,
    pub team: i32,
}

/// Points a player earns from its own flag events.
pub open spec fn player_points(e: PlayerFlagEvents) -> int {
    CAPTURE * e.captures + CARRIER_FRAG * e.carrier_frags + CARRIER_DEFEND * e.carrier_defends
        + CARRIER_DEFEND_VS_AGGRESSIVE * e.carrier_defends_vs_aggressive + FLAG_DEFEND * e.defends
        + RETURN_FLAG * e.returns
}

/// Points each teammate earns from a player's flag events.
pub open spec fn team_points(e: PlayerFlagEvents) -> int {
    CAPTURE_TEAM * e.captures
}

impl CtfPoints {
    /// The points of a player's flag events.
    pub fn from(value: &PlayerFlagEvents) -> (r: CtfPoints)
        ensures
            r.player == player_points(*value),
            r.team == team_points(*value),
    {
        let e = *value;
        let player = CAPTURE * e.captures as i32 + CARRIER_FRAG * e.carrier_frags as i32
            + CARRIER_DEFEND * e.carrier_defends as i32 + CARRIER_DEFEND_VS_AGGRESSIVE
            * e.carrier_defends_vs_aggressive as i32 + FLAG_DEFEND * e.defends as i32 + RETURN_FLAG
            * e.returns as i32;
        CtfPoints { player, team: CAPTURE_TEAM * e.captures as i32 }
    }
}

/// The flag events recorded for `name`.
pub open spec fn events_of(ev: FlagTallyView, name: Seq<char>) -> PlayerFlagEvents {
    match flag_entry(ev, name, 0) {
        Some(i) => ev[i].1,
        None => no_events(),
    }
}

/// Adds `bonus` to each player of `cs` on the team of `c`, other than `c`.
pub open spec fn add_team_bonus(t: TallyView, cs: Seq<Client>, c: Client, bonus: int) -> TallyView
    decreases cs.len(),
{
    if cs.len() == 0 {
        t
    } else {
        let prev = add_team_bonus(t, cs.drop_last(), c, bonus);
        let p = cs.last();
        if !p.is_spectator && p.team@ == c.team@ && p.name@ != c.name@ {
            tally_add(prev, p.name@, bonus)
        } else {
            prev
        }
    }
}

/// Flag points after the players of `cs`, of the roster `all`, are counted.
pub open spec fn points_fold(all: Seq<Client>, cs: Seq<Client>, ev: FlagTallyView) -> TallyView
    decreases cs.len(),
{
    if cs.len() == 0 {
        initial_tally(with_spectator_flag(all, false))
    } else {
        let prev = points_fold(all, cs.drop_last(), ev);
        let c = cs.last();
        if c.is_spectator {
            prev
        } else {
            let e = events_of(ev, c.name@);
            add_team_bonus(tally_add(prev, c.name@, player_points(e)), all, c, team_points(e))
        }
    }
}

/// Flag points per player of the roster `cs`, from the flag events `ev`.
pub open spec fn spec_points(cs: Seq<Client>, ev: FlagTallyView) -> TallyView {
    points_fold(cs, cs, ev)
}

pub proof fn lemma_bonus_distinct(t: TallyView, cs: Seq<Client>, c: Client, bonus: int)
    requires
        distinct_names(t),
    ensures
        distinct_names(add_team_bonus(t, cs, c, bonus)),
    decreases cs.len(),
{
    if cs.len() > 0 {
        lemma_bonus_distinct(t, cs.drop_last(), c, bonus);
        lemma_tally_add_distinct(add_team_bonus(t, cs.drop_last(), c, bonus), cs.last().name@, bonus);
    }
}

/// Flag points hold each name once.
pub proof fn lemma_points_distinct(all: Seq<Client>, cs: Seq<Client>, ev: FlagTallyView)
    ensures
        distinct_names(points_fold(all, cs, ev)),
    decreases cs.len(),
{
    if cs.len() == 0 {
        lemma_initial_distinct(with_spectator_flag(all, false));
    } else {
        lemma_points_distinct(all, cs.drop_last(), ev);
        let prev = points_fold(all, cs.drop_last(), ev);
        let c = cs.last();
        if !c.is_spectator {
            let e = events_of(ev, c.name@);
            lemma_tally_add_distinct(prev, c.name@, player_points(e));
            lemma_bonus_distinct(tally_add(prev, c.name@, player_points(e)), all, c, team_points(e));
        }
    }
}

fn events_for(ev: &Vec<(String, PlayerFlagEvents)>, name: &String) -> (r: PlayerFlagEvents)
    ensures
        r == events_of(flag_tally_view(ev@), name@),
{
    let n = ev.len();
    let mut k: usize = 0;
    while k < n
        invariant
            n == ev@.len(),
            k <= n,
            flag_entry(flag_tally_view(ev@), name@, 0) == flag_entry(
                flag_tally_view(ev@),
                name@,
                k as int,
            ),
        decreases n - k,
    {
        if ev[k].0 == *name {
            return ev[k].1;
        }
        k = k + 1;
    }
    PlayerFlagEvents {
        captures: 0,
        pickups: 0,
        returns: 0,
        carrier_frags: 0,
        defends: 0,
        carrier_defends: 0,
        carrier_defends_vs_aggressive: 0,
    }
}

/// Flag points per player of the roster `cs`, from the flag events `ev`.
pub fn points_for(cs: &Vec<Client>, ev: &Vec<(String, PlayerFlagEvents)>) -> (r: Vec<(String, i32)>)
    ensures
        tally_view(r@) == spec_points(cs@, flag_tally_view(ev@)),
        distinct_names(tally_view(r@)),
{
    proof {
        lemma_points_distinct(cs@, cs@, flag_tally_view(ev@));
    }
    let mut t = initial_scores(cs);
    let n = cs.len();
    let mut i: usize = 0;
    while i < n
        invariant
            n == cs@.len(),
            i <= n,
            tally_view(t@) == points_fold(cs@, cs@.subrange(0, i as int), flag_tally_view(ev@)),
        decreases n - i,
    {
        assert(cs@.subrange(0, i + 1).drop_last() =~= cs@.subrange(0, i as int));
        if !cs[i].is_spectator {
            let c = &cs[i];
            let e = events_for(ev, &c.name);
            let p = CtfPoints::from(&e);
            add_score(&mut t, c.name.clone(), p.player);
            let mut j: usize = 0;
            let ghost base = tally_view(t@);
            while j < n
                invariant
                    n == cs@.len(),
                    j <= n,
                    i < n,
                    c == &cs@[i as int],
                    p.team == team_points(e),
                    tally_view(t@) == add_team_bonus(base, cs@.subrange(0, j as int), *c, p.team as int),
                decreases n - j,
            {
                assert(cs@.subrange(0, j + 1).drop_last() =~= cs@.subrange(0, j as int));
                let q = &cs[j];
                if !q.is_spectator && q.team == c.team && q.name != c.name {
                    add_score(&mut t, q.name.clone(), p.team);
                }
                j = j + 1;
            }
            assert(cs@.subrange(0, n as int) =~= cs@);
        }
        i = i + 1;
    }
    assert(cs@.subrange(0, n as int) =~= cs@);
    t
}

/// Flag points per player of the stream's roster.
pub fn points(data: &[u8]) -> (r: Result<Vec<(String, i32)>, Error>)
    ensures
        match r {
            Ok(t) => distinct_names(tally_view(t@)) && exists|cs: Seq<Client>|
                is_roster(data@, cs) && tally_view(t@) == #[trigger] spec_points(
                    cs,
                    spec_flag_events(data@),
                ),
            Err(e) => spec_clientinfo_strings(data@) is None && e == Error::ClientinfoNotFound,
        },
{
    let cs = clients(data)?;
    let ev = flag_events_per_player_name(data);
    Ok(points_for(&cs, &ev))
}

} // verus!

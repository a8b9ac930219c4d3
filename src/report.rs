//! Rendering a match report as escaped display text.

use vstd::prelude::*;
use crate::model::{stat_view, MatchReport, Player, PlayerModel, ReportModel, Team, TeamModel, Weapon, WeaponModel};
use crate::text::{decimal_text, escape_markdown, escaped, push_decimal, push_text};

verus! {

/// Shot accuracy in whole percent: 100 whenever the hits reach the shots,
/// else the floor of `hits * 100 / shots`, and 0 without shots.
pub open spec fn accuracy_of(hits: u32, shots: u32) -> nat {
    if hits >= shots && hits > 0 {
        100
    } else if shots > 0 {
        (hits as nat * 100) / (shots as nat)
    } else {
        0
    }
}

pub open spec fn weapon_line(w: WeaponModel) -> Seq<char> {
    escaped(w.name) + ": Shots: "@ + decimal_text(w.shots as nat) + " \\| Acc. "@
        + decimal_text(accuracy_of(w.hits, w.shots)) + "% \\| Kills: "@ + decimal_text(
        w.kills as nat,
    ) + "\n"@
}

pub open spec fn weapons_text(ws: Seq<WeaponModel>) -> Seq<char>
    decreases ws.len(),
{
    if ws.len() == 0 {
        Seq::empty()
    } else {
        weapons_text(ws.drop_last()) + weapon_line(ws.last())
    }
}

pub open spec fn stat_line(s: (Seq<char>, Seq<char>)) -> Seq<char> {
    escaped(s.0) + ": "@ + escaped(s.1) + "\n"@
}

pub open spec fn stats_text(stats: Seq<(Seq<char>, Seq<char>)>) -> Seq<char>
    decreases stats.len(),
{
    if stats.len() == 0 {
        Seq::empty()
    } else {
        stats_text(stats.drop_last()) + stat_line(stats.last())
    }
}

/// The fenced block of one player; the name stands verbatim.
pub open spec fn player_text(p: PlayerModel) -> Seq<char> {
    "```\nPlayer: "@ + p.name + "\n"@ + stats_text(p.stats) + (if p.weapons.len() > 0 {
        "Weapons: \n"@ + weapons_text(p.weapons)
    } else {
        Seq::empty()
    }) + "```\n"@
}

pub open spec fn players_text(ps: Seq<PlayerModel>) -> Seq<char>
    decreases ps.len(),
{
    if ps.len() == 0 {
        Seq::empty()
    } else {
        players_text(ps.drop_last()) + player_text(ps.last())
    }
}

/// The label of the team at position `i`.
pub open spec fn team_label(i: nat) -> Seq<char> {
    if i == 0 {
        "Team One"@
    } else {
        "Team Two"@
    }
}

/// The block of the team at position `i`; labelled only in a team game.
pub open spec fn team_text(t: TeamModel, i: nat, team_game: bool) -> Seq<char> {
    (if team_game {
        "*"@ + team_label(i) + "*: *"@ + escaped(t.score) + "*\n"@
    } else {
        Seq::empty()
    }) + players_text(t.players)
}

pub open spec fn teams_text(ts: Seq<TeamModel>, team_game: bool) -> Seq<char>
    decreases ts.len(),
{
    if ts.len() == 0 {
        Seq::empty()
    } else {
        teams_text(ts.drop_last(), team_game) + team_text(ts.last(), (ts.len() - 1) as nat, team_game)
    }
}

/// The header and summary lines.
pub open spec fn summary_text(m: ReportModel) -> Seq<char> {
    "*Match concluded*\n"@ + "Map: "@ + escaped(m.map) + " \\| Type: "@ + escaped(m.match_type)
        + " \\| Duration: "@ + escaped(m.duration) + "\n\n"@
}

/// The whole rendered report.
pub open spec fn report_text(m: ReportModel) -> Seq<char> {
    summary_text(m) + teams_text(m.teams, m.is_team_game)
}

/// Shot accuracy in whole percent.
pub fn accuracy(hits: u32, shots: u32) -> (r: u32)
    ensures
        r as nat == accuracy_of(hits, shots),
        r <= 100,
{
    if hits >= shots && hits > 0 {
        100
    } else if shots > 0 {
        assert(hits < shots);
        assert((hits as nat * 100) / (shots as nat) < 100) by (nonlinear_arith)
            requires
                hits < shots,
        ;
        ((hits as u64 * 100) / (shots as u64)) as u32
    } else {
        0
    }
}

fn push_escaped(out: &mut String, s: &str)
    ensures
        final(out)@ == old(out)@ + escaped(s@),
{
    let e = escape_markdown(s);
    push_text(out, e.as_str());
}

fn push_weapon(out: &mut String, w: &Weapon)
    ensures
        final(out)@ == old(out)@ + weapon_line(w@),
{
    let ghost start = out@;
    push_escaped(out, w.name.as_str());
    push_text(out, ": Shots: ");
    push_decimal(out, w.shots);
    push_text(out, " \\| Acc. ");
    push_decimal(out, accuracy(w.hits, w.shots));
    push_text(out, "% \\| Kills: ");
    push_decimal(out, w.kills);
    push_text(out, "\n");
    assert(out@ =~= start + weapon_line(w@));
}

fn push_player(out: &mut String, p: &Player)
    ensures
        final(out)@ == old(out)@ + player_text(p@),
{
    let ghost start = out@;
    let ghost stats = p@.stats;
    let ghost ws = p@.weapons;
    push_text(out, "```\nPlayer: ");
    push_text(out, p.name.as_str());
    push_text(out, "\n");
    let ghost head = out@;
    let mut i: usize = 0;
    while i < p.stats.len()
        invariant
            stats == p@.stats,
            i <= p.stats@.len(),
            out@ == head + stats_text(stats.subrange(0, i as int)),
        decreases p.stats@.len() - i,
    {
        assert(stats.subrange(0, i + 1).drop_last() =~= stats.subrange(0, i as int));
        assert(stat_view(p.stats@[i as int]) == stats[i as int]);
        let ghost before = out@;
        push_escaped(out, p.stats[i].0.as_str());
        push_text(out, ": ");
        push_escaped(out, p.stats[i].1.as_str());
        push_text(out, "\n");
        assert(out@ =~= before + stat_line(stats[i as int]));
        i = i + 1;
    }
    assert(stats =~= stats.subrange(0, i as int));
    let ghost mid = out@;
    if p.weapons.len() > 0 {
        push_text(out, "Weapons: \n");
        let ghost whead = out@;
        let mut k: usize = 0;
        while k < p.weapons.len()
            invariant
                ws == p@.weapons,
                k <= p.weapons@.len(),
                out@ == whead + weapons_text(ws.subrange(0, k as int)),
            decreases p.weapons@.len() - k,
        {
            assert(ws.subrange(0, k + 1).drop_last() =~= ws.subrange(0, k as int));
            push_weapon(out, &p.weapons[k]);
            k = k + 1;
        }
        assert(ws =~= ws.subrange(0, k as int));
    }
    push_text(out, "```\n");
    assert(out@ =~= start + player_text(p@));
}

fn push_team(out: &mut String, t: &Team, i: usize, team_game: bool)
    ensures
        final(out)@ == old(out)@ + team_text(t@, i as nat, team_game),
{
    let ghost start = out@;
    let ghost ps = t@.players;
    if team_game {
        push_text(out, "*");
        if i == 0 {
            push_text(out, "Team One");
        } else {
            push_text(out, "Team Two");
        }
        push_text(out, "*: *");
        push_escaped(out, t.score.as_str());
        push_text(out, "*\n");
    }
    let ghost head = out@;
    assert(head =~= start + (if team_game {
        "*"@ + team_label(i as nat) + "*: *"@ + escaped(t@.score) + "*\n"@
    } else {
        Seq::empty()
    }));
    let mut k: usize = 0;
    while k < t.players.len()
        invariant
            ps == t@.players,
            k <= t.players@.len(),
            out@ == head + players_text(ps.subrange(0, k as int)),
        decreases t.players@.len() - k,
    {
        assert(ps.subrange(0, k + 1).drop_last() =~= ps.subrange(0, k as int));
        push_player(out, &t.players[k]);
        k = k + 1;
    }
    assert(ps =~= ps.subrange(0, k as int));
    assert(out@ =~= start + team_text(t@, i as nat, team_game));
}

/// Renders a report: a header, a summary line, then each team in order, with
/// every free-text field escaped and player names verbatim.
pub fn format_match_report(m: &MatchReport) -> (r: String)
    ensures
        r@ == report_text(m@),
{
    let mut out = String::new();
    push_text(&mut out, "*Match concluded*\n");
    push_text(&mut out, "Map: ");
    push_escaped(&mut out, m.map.as_str());
    push_text(&mut out, " \\| Type: ");
    push_escaped(&mut out, m.match_type.as_str());
    push_text(&mut out, " \\| Duration: ");
    push_escaped(&mut out, m.duration.as_str());
    push_text(&mut out, "\n\n");
    let ghost head = out@;
    assert(head =~= summary_text(m@));
    let ghost ts = m@.teams;
    let mut i: usize = 0;
    while i < m.teams.len()
        invariant
            ts == m@.teams,
            i <= m.teams@.len(),
            out@ == head + teams_text(ts.subrange(0, i as int), m.is_team_game),
        decreases m.teams@.len() - i,
    {
        assert(ts.subrange(0, i + 1).drop_last() =~= ts.subrange(0, i as int));
        push_team(&mut out, &m.teams[i], i, m.is_team_game);
        i = i + 1;
    }
    assert(ts =~= ts.subrange(0, i as int));
    out
}

} // verus!

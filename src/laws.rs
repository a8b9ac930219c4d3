//! Properties of the parser and the formatter, proved over their models.

use vstd::prelude::*;
use crate::model::{PlayerModel, ReportModel, TeamModel, WeaponModel};
use crate::parser::{
    attr_value, count_attr, find_score, initial_builder, is_denied, names, report_of, run,
    solo_team, step, step_end, text_attr, BuilderModel,
};
use crate::report::{player_text, report_text, team_text, teams_text};
use crate::text::{escape_char, escaped, is_reserved, lossy_text};
use crate::xml::EventModel;

verus! {

/// Whether an event opens, closes or is an element named `w`.
pub open spec fn event_named(e: EventModel, w: Seq<char>) -> bool {
    match e {
        EventModel::Start { name, .. } => names(name, w),
        EventModel::Empty { name, .. } => names(name, w),
        EventModel::End { name } => names(name, w),
        EventModel::Other => false,
    }
}

/// Whether an event belongs to a `match`, `team` or `player` element.
pub open spec fn is_structural(e: EventModel) -> bool {
    event_named(e, "match"@) || event_named(e, "team"@) || event_named(e, "player"@)
}

proof fn lemma_run_stays_initial(evs: Seq<EventModel>)
    requires
        forall|i: int| 0 <= i < evs.len() ==> !is_structural(#[trigger] evs[i]),
    ensures
        run(evs) == initial_builder(),
    decreases evs.len(),
{
    if evs.len() > 0 {
        lemma_run_stays_initial(evs.drop_last());
        assert(!is_structural(evs[evs.len() - 1]));
    }
}

/// Events of no `match`, `team` or `player` element describe no report; so
/// `parse_content` fails with `NoData` on a document that scans to such events.
pub proof fn lemma_no_structure_no_data(evs: Seq<EventModel>)
    requires
        forall|i: int| 0 <= i < evs.len() ==> !is_structural(#[trigger] evs[i]),
    ensures
        report_of(evs) is None,
{
    lemma_run_stays_initial(evs);
}

/// Whether every `match` element among `evs` lacks an `isTeamGame` attribute.
pub open spec fn no_team_game_attr(evs: Seq<EventModel>) -> bool {
    forall|i: int|
        0 <= i < evs.len() ==> match #[trigger] evs[i] {
            EventModel::Start { name, attrs } => names(name, "match"@) ==> attr_value(
                attrs,
                "isTeamGame"@,
            ) is None,
            _ => true,
        }
}

proof fn lemma_run_no_team_game(evs: Seq<EventModel>)
    requires
        no_team_game_attr(evs),
    ensures
        !run(evs).report.is_team_game,
    decreases evs.len(),
{
    if evs.len() > 0 {
        let e = evs[evs.len() - 1];
        assert(no_team_game_attr(evs.drop_last())) by {
            assert forall|i: int| 0 <= i < evs.drop_last().len() implies match #[trigger] evs.drop_last()[i] {
                EventModel::Start { name, attrs } => names(name, "match"@) ==> attr_value(
                    attrs,
                    "isTeamGame"@,
                ) is None,
                _ => true,
            } by {
                assert(evs.drop_last()[i] == evs[i]);
            }
        }
        lemma_run_no_team_game(evs.drop_last());
        assert(match e {
            EventModel::Start { name, attrs } => names(name, "match"@) ==> attr_value(
                attrs,
                "isTeamGame"@,
            ) is None,
            _ => true,
        });
    }
}

/// Where no `match` start event carries an `isTeamGame` attribute, the report
/// that the events describe, if any, is no team game.
pub proof fn lemma_team_game_defaults_false(evs: Seq<EventModel>)
    requires
        no_team_game_attr(evs),
    ensures
        report_of(evs) matches Some(m) ==> !m.is_team_game,
{
    lemma_run_no_team_game(evs);
}

/// The end event of a player, with no team open, appends one team holding
/// exactly that player, scored by the player's first `Score` statistic or else
/// empty.
pub proof fn lemma_solo_player_team(s: BuilderModel, name: Seq<u8>, p: PlayerModel)
    requires
        names(name, "player"@),
        s.team is None,
        s.player == Some(p),
    ensures
        step_end(s, name).report.teams == s.report.teams.push(
            TeamModel {
                score: match find_score(p.stats) {
                    Some(v) => v,
                    None => Seq::empty(),
                },
                players: seq![p],
            },
        ),
        step_end(s, name).team is None,
        step_end(s, name).player is None,
{
    reveal_strlit("team");
    reveal_strlit("player");
    assert(!names(name, "team"@));
    assert(solo_team(p).players == seq![p]);
}

/// The statistic that an event inside a player adds, if any.
pub open spec fn stat_entry(e: EventModel) -> Option<(Seq<char>, Seq<char>)> {
    match e {
        EventModel::Empty { name, attrs } => if names(name, "stat"@) {
            match (attr_value(attrs, "name"@), attr_value(attrs, "value"@)) {
                (Some(n), Some(v)) => if is_denied(lossy_text(n)) {
                    None
                } else {
                    Some((lossy_text(n), lossy_text(v)))
                },
                _ => None,
            }
        } else {
            None
        },
        _ => None,
    }
}

/// The weapon that an event inside a player adds, if any.
pub open spec fn weapon_entry(e: EventModel) -> Option<WeaponModel> {
    match e {
        EventModel::Empty { name, attrs } => if names(name, "weapon"@) {
            match attr_value(attrs, "name"@) {
                Some(n) => Some(
                    WeaponModel {
                        name: lossy_text(n),
                        hits: count_attr(attrs, "hits"@),
                        shots: count_attr(attrs, "shots"@),
                        kills: count_attr(attrs, "kills"@),
                    },
                ),
                None => None,
            }
        } else {
            None
        },
        _ => None,
    }
}

/// The statistics that the events add, in order.
pub open spec fn stats_in(evs: Seq<EventModel>) -> Seq<(Seq<char>, Seq<char>)>
    decreases evs.len(),
{
    if evs.len() == 0 {
        Seq::empty()
    } else {
        match stat_entry(evs.last()) {
            Some(st) => stats_in(evs.drop_last()).push(st),
            None => stats_in(evs.drop_last()),
        }
    }
}

/// The weapons that the events add, in order.
pub open spec fn weapons_in(evs: Seq<EventModel>) -> Seq<WeaponModel>
    decreases evs.len(),
{
    if evs.len() == 0 {
        Seq::empty()
    } else {
        match weapon_entry(evs.last()) {
            Some(w) => weapons_in(evs.drop_last()).push(w),
            None => weapons_in(evs.drop_last()),
        }
    }
}

/// The player that a `player` element with attributes `attrs`, holding the
/// events `body`, describes.
pub open spec fn player_of(attrs: Seq<(Seq<u8>, Seq<u8>)>, body: Seq<EventModel>) -> PlayerModel {
    PlayerModel { name: text_attr(attrs, "name"@), stats: stats_in(body), weapons: weapons_in(body) }
}

proof fn lemma_inside_player(
    pre: Seq<EventModel>,
    name: Seq<u8>,
    attrs: Seq<(Seq<u8>, Seq<u8>)>,
    body: Seq<EventModel>,
)
    requires
        names(name, "player"@),
        run(pre).team is None,
        forall|i: int| 0 <= i < body.len() ==> !is_structural(#[trigger] body[i]),
    ensures
        run(pre + seq![EventModel::Start { name, attrs }] + body) == (BuilderModel {
            report: run(pre).report,
            team: None,
            player: Some(player_of(attrs, body)),
        }),
    decreases body.len(),
{
    reveal_strlit("match");
    reveal_strlit("team");
    reveal_strlit("player");
    reveal_strlit("stat");
    reveal_strlit("weapon");
    let head = pre + seq![EventModel::Start { name, attrs }];
    if body.len() == 0 {
        assert(head + body =~= head);
        assert(head.drop_last() =~= pre);
        assert(!names(name, "match"@));
        assert(!names(name, "team"@));
        assert(stats_in(body) =~= Seq::<(Seq<char>, Seq<char>)>::empty());
        assert(weapons_in(body) =~= Seq::<WeaponModel>::empty());
    } else {
        let e = body.last();
        lemma_inside_player(pre, name, attrs, body.drop_last());
        assert((head + body).drop_last() =~= head + body.drop_last());
        assert((head + body).last() == e);
        assert(!is_structural(body[body.len() - 1]));
        let s = run(head + body.drop_last());
        match e {
            EventModel::Empty { name: n, attrs: a } => {
                if names(n, "stat"@) {
                    assert(!names(n, "weapon"@));
                }
            },
            _ => {},
        }
        assert(run(head + body) == step(s, e));
    }
}

/// A `player` element outside any team, whose body holds no `match`, `team`
/// or `player` element, adds exactly one team to the report: it holds that
/// player alone, with the body's kept statistics and named weapons in order,
/// and is scored by the first `Score` statistic among them, or else empty.
pub proof fn lemma_solo_player_region(
    pre: Seq<EventModel>,
    name: Seq<u8>,
    attrs: Seq<(Seq<u8>, Seq<u8>)>,
    body: Seq<EventModel>,
    end_name: Seq<u8>,
)
    requires
        names(name, "player"@),
        names(end_name, "player"@),
        run(pre).team is None,
        forall|i: int| 0 <= i < body.len() ==> !is_structural(#[trigger] body[i]),
    ensures
        run(pre + seq![EventModel::Start { name, attrs }] + body + seq![EventModel::End { name: end_name }]).report.teams
            == run(pre).report.teams.push(
            TeamModel {
                score: match find_score(stats_in(body)) {
                    Some(v) => v,
                    None => Seq::empty(),
                },
                players: seq![player_of(attrs, body)],
            },
        ),
{
    lemma_inside_player(pre, name, attrs, body);
    let inner = pre + seq![EventModel::Start { name, attrs }] + body;
    let all = inner + seq![EventModel::End { name: end_name }];
    assert(all.drop_last() =~= inner);
    assert(all.last() == EventModel::End { name: end_name });
    lemma_solo_player_team(run(inner), end_name, player_of(attrs, body));
}

proof fn lemma_escape_prefix(s: Seq<char>)
    ensures
        forall|j: int|
            0 <= j < escaped(s).len() && is_reserved(#[trigger] escaped(s)[j]) ==> j > 0 && escaped(
                s,
            )[j - 1] == escape_char(),
    decreases s.len(),
{
    if s.len() > 0 {
        lemma_escape_prefix(s.drop_last());
        let prev = escaped(s.drop_last());
        let c = s.last();
        let tail = if is_reserved(c) {
            seq![escape_char(), c]
        } else {
            seq![c]
        };
        assert(escaped(s) == prev + tail);
        assert forall|j: int|
            0 <= j < escaped(s).len() && is_reserved(#[trigger] escaped(s)[j]) implies j > 0
            && escaped(s)[j - 1] == escape_char() by {
            if j < prev.len() {
                assert(escaped(s)[j] == prev[j]);
                assert(escaped(s)[j - 1] == prev[j - 1]);
            } else if is_reserved(c) {
                if j == prev.len() {
                    assert(escaped(s)[j] == escape_char());
                } else {
                    assert(escaped(s)[j - 1] == escape_char());
                }
            }
        }
    }
}

/// In escaped text every reserved character is preceded by the escape character.
pub proof fn lemma_escaped_reserved_preceded(s: Seq<char>, j: int)
    requires
        0 <= j < escaped(s).len(),
        is_reserved(escaped(s)[j]),
    ensures
        j > 0,
        escaped(s)[j - 1] == escape_char(),
{
    lemma_escape_prefix(s);
}

/// A player's block holds the name verbatim, right after its opening line.
pub proof fn lemma_player_name_verbatim(p: PlayerModel)
    ensures
        player_text(p).subrange(12, 12 + p.name.len() as int) == p.name,
{
    reveal_strlit("```\nPlayer: ");
    let head = "```\nPlayer: "@;
    assert(head.len() == 12);
    assert(player_text(p).subrange(12, 12 + p.name.len() as int) =~= p.name);
}

pub open spec fn clean_player(p: PlayerModel) -> bool {
    forall|k: int| 0 <= k < p.stats.len() ==> !is_denied(#[trigger] p.stats[k].0)
}

pub open spec fn clean_team(t: TeamModel) -> bool {
    forall|j: int| 0 <= j < t.players.len() ==> clean_player(#[trigger] t.players[j])
}

/// Whether no denied statistic is stored anywhere in a report.
pub open spec fn clean_report(r: ReportModel) -> bool {
    forall|i: int| 0 <= i < r.teams.len() ==> clean_team(#[trigger] r.teams[i])
}

pub open spec fn clean_builder(s: BuilderModel) -> bool {
    &&& clean_report(s.report)
    &&& s.team matches Some(t) ==> clean_team(t)
    &&& s.player matches Some(p) ==> clean_player(p)
}

proof fn lemma_step_clean(s: BuilderModel, e: EventModel)
    requires
        clean_builder(s),
    ensures
        clean_builder(step(s, e)),
{
    let n = step(s, e);
    if let Some(p) = n.player {
        assert(clean_player(p));
    }
    if let Some(t) = n.team {
        assert(clean_team(t));
    }
    assert(clean_report(n.report));
}

proof fn lemma_run_clean(evs: Seq<EventModel>)
    ensures
        clean_builder(run(evs)),
    decreases evs.len(),
{
    if evs.len() > 0 {
        lemma_run_clean(evs.drop_last());
        lemma_step_clean(run(evs.drop_last()), evs.last());
    }
}

/// No statistic of a denied name is stored in the report that a sequence of
/// events describes, however often the events list it.
pub proof fn lemma_denied_stats_absent(evs: Seq<EventModel>)
    ensures
        report_of(evs) matches Some(m) ==> clean_report(m),
{
    lemma_run_clean(evs);
}

/// Rendering is a function of the report's value: equal reports render to
/// identical text.
pub proof fn lemma_format_deterministic(a: ReportModel, b: ReportModel)
    requires
        a == b,
    ensures
        report_text(a) == report_text(b),
{
}

/// Teams are rendered in their stored order: the blocks of the first `k`
/// teams open the rendering of all of them.
pub proof fn lemma_teams_in_order(ts: Seq<TeamModel>, team_game: bool, k: int)
    requires
        0 <= k <= ts.len(),
    ensures
        teams_text(ts.subrange(0, k), team_game).len() <= teams_text(ts, team_game).len(),
        teams_text(ts, team_game).subrange(0, teams_text(ts.subrange(0, k), team_game).len() as int)
            == teams_text(ts.subrange(0, k), team_game),
    decreases ts.len(),
{
    if k == ts.len() {
        assert(ts.subrange(0, k) =~= ts);
        assert(teams_text(ts, team_game).subrange(0, teams_text(ts, team_game).len() as int) =~= teams_text(ts, team_game));
    } else {
        lemma_teams_in_order(ts.drop_last(), team_game, k);
        assert(ts.drop_last().subrange(0, k) =~= ts.subrange(0, k));
        let pre = teams_text(ts.subrange(0, k), team_game);
        let mid = teams_text(ts.drop_last(), team_game);
        let last = team_text(ts.last(), (ts.len() - 1) as nat, team_game);
        assert(teams_text(ts, team_game) == mid + last);
        assert(teams_text(ts, team_game).subrange(0, pre.len() as int) =~= mid.subrange(0, pre.len() as int));
    }
}

} // verus!

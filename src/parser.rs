//! Building a match report from the document's events.

use vstd::prelude::*;
use vstd::string::StrSliceExecFns;
use crate::model::{
    empty_report, stat_view, MatchReport, ParseFailure, Player, PlayerModel, ReportModel, Team,
    TeamModel, Weapon, WeaponModel,
};
use crate::text::{
    bool_of_text, count_or_zero, decode_lossy, flag_is_set, lossy_text, push_text, same_text,
    u32_of_text,
};
use crate::xml::{attr_view, events_view, read_events, scanned, Attribute, EventModel, XmlEvent};

verus! {

/// Whether the raw name `b` spells the ASCII word `w`.
pub open spec fn names(b: Seq<u8>, w: Seq<char>) -> bool {
    b.len() == w.len() && forall|i: int| 0 <= i < b.len() ==> b[i] as int == #[trigger] w[i] as int
}

/// The value of the last attribute whose key is `key`.
pub open spec fn attr_value(attrs: Seq<(Seq<u8>, Seq<u8>)>, key: Seq<char>) -> Option<Seq<u8>>
    decreases attrs.len(),
{
    if attrs.len() == 0 {
        None
    } else if names(attrs.last().0, key) {
        Some(attrs.last().1)
    } else {
        attr_value(attrs.drop_last(), key)
    }
}

/// A text attribute, decoded; empty when absent.
pub open spec fn text_attr(attrs: Seq<(Seq<u8>, Seq<u8>)>, key: Seq<char>) -> Seq<char> {
    match attr_value(attrs, key) {
        Some(v) => lossy_text(v),
        None => Seq::empty(),
    }
}

/// A counter attribute; 0 when absent or not a `u32`.
pub open spec fn count_attr(attrs: Seq<(Seq<u8>, Seq<u8>)>, key: Seq<char>) -> u32 {
    match attr_value(attrs, key) {
        Some(v) => match u32_of_text(lossy_text(v)) {
            Some(n) => n,
            None => 0u32,
        },
        None => 0u32,
    }
}

/// A flag attribute; false when absent or not a boolean literal.
pub open spec fn flag_attr(attrs: Seq<(Seq<u8>, Seq<u8>)>, key: Seq<char>) -> bool {
    match attr_value(attrs, key) {
        Some(v) => bool_of_text(lossy_text(v)) == Some(true),
        None => false,
    }
}

/// Statistics left out of every report: power-ups and flag carries.
pub open spec fn is_denied(n: Seq<char>) -> bool {
    n == "MH"@ || n == "RA"@ || n == "YA"@ || n == "GA"@ || n == "Quad"@ || n == "Haste"@
        || n == "Blue Flag"@ || n == "Red Flag"@
}

/// The value of the first `Score` statistic, if any.
pub open spec fn find_score(stats: Seq<(Seq<char>, Seq<char>)>) -> Option<Seq<char>>
    decreases stats.len(),
{
    if stats.len() == 0 {
        None
    } else {
        match find_score(stats.drop_last()) {
            Some(v) => Some(v),
            None => if stats.last().0 == "Score"@ {
                Some(stats.last().1)
            } else {
                None
            },
        }
    }
}

/// The team made for a player that no team element encloses.
pub open spec fn solo_team(p: PlayerModel) -> TeamModel {
    TeamModel {
        score: match find_score(p.stats) {
            Some(v) => v,
            None => Seq::empty(),
        },
        players: seq![p],
    }
}

/// The report being built, with the team and the player currently open.
pub struct BuilderModel {
    pub report: ReportModel,
    pub team: Option<TeamModel>,
    pub player: Option<PlayerModel>,
}

pub open spec fn initial_builder() -> BuilderModel {
    BuilderModel { report: empty_report(), team: None, player: None }
}

pub open spec fn step_start(s: BuilderModel, name: Seq<u8>, attrs: Seq<(Seq<u8>, Seq<u8>)>) -> BuilderModel {
    if names(name, "match"@) {
        BuilderModel {
            report: ReportModel {
                map: text_attr(attrs, "map"@),
                match_type: text_attr(attrs, "type"@),
                duration: text_attr(attrs, "duration"@),
                is_team_game: flag_attr(attrs, "isTeamGame"@),
                teams: s.report.teams,
            },
            ..s
        }
    } else if names(name, "team"@) {
        BuilderModel {
            team: Some(TeamModel { score: text_attr(attrs, "score"@), players: Seq::empty() }),
            ..s
        }
    } else if names(name, "player"@) {
        BuilderModel {
            player: Some(
                PlayerModel { name: text_attr(attrs, "name"@), stats: Seq::empty(), weapons: Seq::empty() },
            ),
            ..s
        }
    } else {
        s
    }
}

pub open spec fn step_empty(s: BuilderModel, name: Seq<u8>, attrs: Seq<(Seq<u8>, Seq<u8>)>) -> BuilderModel {
    if names(name, "stat"@) {
        match (attr_value(attrs, "name"@), attr_value(attrs, "value"@), s.player) {
            (Some(n), Some(v), Some(p)) => if is_denied(lossy_text(n)) {
                s
            } else {
                BuilderModel {
                    player: Some(PlayerModel { stats: p.stats.push((lossy_text(n), lossy_text(v))), ..p }),
                    ..s
                }
            },
            _ => s,
        }
    } else if names(name, "weapon"@) {
        match (attr_value(attrs, "name"@), s.player) {
            (Some(n), Some(p)) => BuilderModel {
                player: Some(
                    PlayerModel {
                        weapons: p.weapons.push(
                            WeaponModel {
                                name: lossy_text(n),
                                hits: count_attr(attrs, "hits"@),
                                shots: count_attr(attrs, "shots"@),
                                kills: count_attr(attrs, "kills"@),
                            },
                        ),
                        ..p
                    },
                ),
                ..s
            },
            _ => s,
        }
    } else {
        s
    }
}

pub open spec fn step_end(s: BuilderModel, name: Seq<u8>) -> BuilderModel {
    if names(name, "team"@) {
        match s.team {
            Some(t) => BuilderModel {
                report: ReportModel { teams: s.report.teams.push(t), ..s.report },
                team: None,
                ..s
            },
            None => s,
        }
    } else if names(name, "player"@) {
        match s.player {
            Some(p) => match s.team {
                Some(t) => BuilderModel {
                    team: Some(TeamModel { players: t.players.push(p), ..t }),
                    player: None,
                    ..s
                },
                None => BuilderModel {
                    report: ReportModel { teams: s.report.teams.push(solo_team(p)), ..s.report },
                    player: None,
                    ..s
                },
            },
            None => s,
        }
    } else {
        s
    }
}

/// What one event does to the report being built.
pub open spec fn step(s: BuilderModel, e: EventModel) -> BuilderModel {
    match e {
        EventModel::Start { name, attrs } => step_start(s, name, attrs),
        EventModel::Empty { name, attrs } => step_empty(s, name, attrs),
        EventModel::End { name } => step_end(s, name),
        EventModel::Other => s,
    }
}

/// The state after the events `evs`, in order.
pub open spec fn run(evs: Seq<EventModel>) -> BuilderModel
    decreases evs.len(),
{
    if evs.len() == 0 {
        initial_builder()
    } else {
        step(run(evs.drop_last()), evs.last())
    }
}

/// Whether a finished report holds any data: a map name or a team.
pub open spec fn has_data(r: ReportModel) -> bool {
    r.map.len() > 0 || r.teams.len() > 0
}

/// The report that the events `evs` describe, if it holds any data.
pub open spec fn report_of(evs: Seq<EventModel>) -> Option<ReportModel> {
    if has_data(run(evs).report) {
        Some(run(evs).report)
    } else {
        None
    }
}

/// Whether the raw name `b` spells the ASCII word `w`.
pub fn is_name(b: &Vec<u8>, w: &str) -> (r: bool)
    ensures
        r == names(b@, w@),
{
    let n = w.unicode_len();
    if b.len() != n {
        return false;
    }
    let mut i: usize = 0;
    while i < n
        invariant
            n == w@.len(),
            n == b@.len(),
            i <= n,
            forall|j: int| 0 <= j < i ==> b@[j] as int == #[trigger] w@[j] as int,
        decreases n - i,
    {
        if b[i] as u32 != w.get_char(i) as u32 {
            return false;
        }
        i = i + 1;
    }
    true
}

/// The position of the last attribute whose key is `key`.
pub fn find_attr(attrs: &Vec<Attribute>, key: &str) -> (r: Option<usize>)
    ensures
        match r {
            Some(i) => i < attrs@.len() && attr_value(attrs@.map_values(|a: Attribute| attr_view(a)), key@)
                == Some(attrs@[i as int].value@),
            None => attr_value(attrs@.map_values(|a: Attribute| attr_view(a)), key@) is None,
        },
{
    let ghost all = attrs@.map_values(|a: Attribute| attr_view(a));
    let mut found: Option<usize> = None;
    let mut i: usize = 0;
    while i < attrs.len()
        invariant
            all == attrs@.map_values(|a: Attribute| attr_view(a)),
            i <= attrs@.len(),
            match found {
                Some(j) => j < i && attr_value(all.subrange(0, i as int), key@) == Some(attrs@[j as int].value@),
                None => attr_value(all.subrange(0, i as int), key@) is None,
            },
        decreases attrs@.len() - i,
    {
        assert(all.subrange(0, i + 1).drop_last() =~= all.subrange(0, i as int));
        if is_name(&attrs[i].key, key) {
            found = Some(i);
        }
        i = i + 1;
    }
    assert(all =~= all.subrange(0, i as int));
    found
}

/// A text attribute, decoded; empty when absent.
pub fn text_attribute(attrs: &Vec<Attribute>, key: &str) -> (r: String)
    ensures
        r@ == text_attr(attrs@.map_values(|a: Attribute| attr_view(a)), key@),
{
    match find_attr(attrs, key) {
        Some(i) => decode_lossy(attrs[i].value.as_slice()),
        None => String::new(),
    }
}

/// A counter attribute; 0 when absent or not a `u32`.
pub fn count_attribute(attrs: &Vec<Attribute>, key: &str) -> (r: u32)
    ensures
        r == count_attr(attrs@.map_values(|a: Attribute| attr_view(a)), key@),
{
    match find_attr(attrs, key) {
        Some(i) => {
            let s = decode_lossy(attrs[i].value.as_slice());
            count_or_zero(s.as_str())
        },
        None => 0,
    }
}

/// A flag attribute; false when absent or not a boolean literal.
pub fn flag_attribute(attrs: &Vec<Attribute>, key: &str) -> (r: bool)
    ensures
        r == flag_attr(attrs@.map_values(|a: Attribute| attr_view(a)), key@),
{
    match find_attr(attrs, key) {
        Some(i) => {
            let s = decode_lossy(attrs[i].value.as_slice());
            flag_is_set(s.as_str())
        },
        None => false,
    }
}

/// Whether a statistic name is left out of reports.
pub fn is_denied_stat(n: &str) -> (r: bool)
    ensures
        r == is_denied(n@),
{
    same_text(n, "MH") || same_text(n, "RA") || same_text(n, "YA") || same_text(n, "GA")
        || same_text(n, "Quad") || same_text(n, "Haste") || same_text(n, "Blue Flag")
        || same_text(n, "Red Flag")
}

/// The value of the first `Score` statistic, or an empty text.
pub fn first_score(stats: &Vec<(String, String)>) -> (r: String)
    ensures
        r@ == match find_score(stats@.map_values(|s: (String, String)| stat_view(s))) {
            Some(v) => v,
            None => Seq::empty(),
        },
{
    let ghost all = stats@.map_values(|s: (String, String)| stat_view(s));
    let mut found: Option<usize> = None;
    let mut i: usize = 0;
    while i < stats.len()
        invariant
            all == stats@.map_values(|s: (String, String)| stat_view(s)),
            i <= stats@.len(),
            match found {
                Some(j) => j < i && find_score(all.subrange(0, i as int)) == Some(stats@[j as int].1@),
                None => find_score(all.subrange(0, i as int)) is None,
            },
        decreases stats@.len() - i,
    {
        assert(all.subrange(0, i + 1).drop_last() =~= all.subrange(0, i as int));
        if found.is_none() && same_text(stats[i].0.as_str(), "Score") {
            found = Some(i);
        }
        i = i + 1;
    }
    assert(all =~= all.subrange(0, i as int));
    match found {
        Some(j) => stats[j].1.clone(),
        None => String::new(),
    }
}

pub open spec fn team_opt_view(t: Option<Team>) -> Option<TeamModel> {
    match t {
        Some(t) => Some(t@),
        None => None,
    }
}

pub open spec fn player_opt_view(p: Option<Player>) -> Option<PlayerModel> {
    match p {
        Some(p) => Some(p@),
        None => None,
    }
}

/// The report being built while the document is scanned, with the team and
/// the player whose elements are open.
pub struct ReportBuilder {
    pub report: MatchReport,
    pub team: Option<Team>,
    pub player: Option<Player>,
}

impl View for ReportBuilder {
    type V = BuilderModel;

    open spec fn view(&self) -> BuilderModel {
        BuilderModel {
            report: self.report@,
            team: team_opt_view(self.team),
            player: player_opt_view(self.player),
        }
    }
}

impl ReportBuilder {
    /// A builder with an empty report and nothing open.
    pub fn new() -> (r: ReportBuilder)
        ensures
            r@ == initial_builder(),
    {
        ReportBuilder { report: MatchReport::new(), team: None, player: None }
    }

    fn open_element(&mut self, name: &Vec<u8>, attrs: &Vec<Attribute>)
        ensures
            final(self)@ == step_start(old(self)@, name@, attrs@.map_values(|a: Attribute| attr_view(a))),
    {
        if is_name(name, "match") {
            self.report.map = text_attribute(attrs, "map");
            self.report.match_type = text_attribute(attrs, "type");
            self.report.duration = text_attribute(attrs, "duration");
            self.report.is_team_game = flag_attribute(attrs, "isTeamGame");
        } else if is_name(name, "team") {
            let t = Team { score: text_attribute(attrs, "score"), players: Vec::new() };
            assert(t@.players =~= Seq::<PlayerModel>::empty());
            self.team = Some(t);
        } else if is_name(name, "player") {
            let p = Player { name: text_attribute(attrs, "name"), stats: Vec::new(), weapons: Vec::new() };
            assert(p@.stats =~= Seq::<(Seq<char>, Seq<char>)>::empty());
            assert(p@.weapons =~= Seq::<WeaponModel>::empty());
            self.player = Some(p);
        }
    }

    fn leaf_element(&mut self, name: &Vec<u8>, attrs: &Vec<Attribute>)
        ensures
            final(self)@ == step_empty(old(self)@, name@, attrs@.map_values(|a: Attribute| attr_view(a))),
    {
        if is_name(name, "stat") {
            let ni = find_attr(attrs, "name");
            let vi = find_attr(attrs, "value");
            if let (Some(a), Some(b)) = (ni, vi) {
                let n = decode_lossy(attrs[a].value.as_slice());
                let v = decode_lossy(attrs[b].value.as_slice());
                if !is_denied_stat(n.as_str()) {
                    if let Some(mut p) = self.player.take() {
                        let ghost before = p@;
                        let ghost entry = (n@, v@);
                        p.stats.push((n, v));
                        assert(p@.stats =~= before.stats.push(entry));
                        self.player = Some(p);
                    }
                }
            }
        } else if is_name(name, "weapon") {
            if let Some(a) = find_attr(attrs, "name") {
                let w = Weapon {
                    name: decode_lossy(attrs[a].value.as_slice()),
                    hits: count_attribute(attrs, "hits"),
                    shots: count_attribute(attrs, "shots"),
                    kills: count_attribute(attrs, "kills"),
                };
                if let Some(mut p) = self.player.take() {
                    let ghost before = p@;
                    let ghost wv = w@;
                    p.weapons.push(w);
                    assert(p@.weapons =~= before.weapons.push(wv));
                    self.player = Some(p);
                }
            }
        }
    }

    fn close_element(&mut self, name: &Vec<u8>)
        ensures
            final(self)@ == step_end(old(self)@, name@),
    {
        if is_name(name, "team") {
            if let Some(t) = self.team.take() {
                let ghost before = self.report@;
                let ghost tv = t@;
                self.report.teams.push(t);
                assert(self.report@.teams =~= before.teams.push(tv));
            }
        } else if is_name(name, "player") {
            if let Some(p) = self.player.take() {
                let ghost pv = p@;
                if let Some(mut t) = self.team.take() {
                    let ghost before = t@;
                    t.players.push(p);
                    assert(t@.players =~= before.players.push(pv));
                    self.team = Some(t);
                } else {
                    let score = first_score(&p.stats);
                    let mut players: Vec<Player> = Vec::new();
                    players.push(p);
                    let t = Team { score, players };
                    assert(t@.players =~= seq![pv]);
                    let ghost before = self.report@;
                    let ghost tv = t@;
                    self.report.teams.push(t);
                    assert(tv == solo_team(pv));
                    assert(self.report@.teams =~= before.teams.push(tv));
                }
            }
        }
    }

    /// Applies one event of the document.
    pub fn feed(&mut self, e: &XmlEvent)
        ensures
            final(self)@ == step(old(self)@, e@),
    {
        match e {
            XmlEvent::Start(name, attrs) => self.open_element(name, attrs),
            XmlEvent::Empty(name, attrs) => self.leaf_element(name, attrs),
            XmlEvent::End(name) => self.close_element(name),
            XmlEvent::Other => {},
        }
    }

    /// The finished report, or `NoData` when it names neither a map nor a team.
    pub fn finish(self) -> (r: Result<MatchReport, ParseFailure>)
        ensures
            match r {
                Ok(m) => has_data(self@.report) && m@ == self@.report,
                Err(f) => f is NoData && !has_data(self@.report),
            },
    {
        if self.report.map.as_str().unicode_len() == 0 && self.report.teams.len() == 0 {
            Err(ParseFailure::NoData)
        } else {
            Ok(self.report)
        }
    }
}

/// Builds the report that a sequence of events describes.
pub fn parse_events(events: &Vec<XmlEvent>) -> (r: Result<MatchReport, ParseFailure>)
    ensures
        match r {
            Ok(m) => report_of(events_view(events@)) == Some(m@),
            Err(f) => f is NoData && report_of(events_view(events@)) is None,
        },
{
    let ghost evs = events_view(events@);
    let mut b = ReportBuilder::new();
    let mut i: usize = 0;
    while i < events.len()
        invariant
            evs == events_view(events@),
            i <= events@.len(),
            b@ == run(evs.subrange(0, i as int)),
        decreases events@.len() - i,
    {
        assert(evs.subrange(0, i + 1).drop_last() =~= evs.subrange(0, i as int));
        b.feed(&events[i]);
        i = i + 1;
    }
    assert(evs =~= evs.subrange(0, i as int));
    b.finish()
}

/// How many elements the events open.
pub open spec fn opened(evs: Seq<EventModel>) -> nat
    decreases evs.len(),
{
    if evs.len() == 0 {
        0
    } else {
        opened(evs.drop_last()) + if evs.last() is Start { 1nat } else { 0nat }
    }
}

/// How many elements the events close.
pub open spec fn closed(evs: Seq<EventModel>) -> nat
    decreases evs.len(),
{
    if evs.len() == 0 {
        0
    } else {
        closed(evs.drop_last()) + if evs.last() is End { 1nat } else { 0nat }
    }
}

/// Whether every element that the events open is closed again.
pub open spec fn balanced(evs: Seq<EventModel>) -> bool {
    opened(evs) == closed(evs)
}

/// Whether every element opened in `events` is closed again.
pub fn is_balanced(events: &Vec<XmlEvent>) -> (r: bool)
    ensures
        r == balanced(events_view(events@)),
{
    let ghost evs = events_view(events@);
    let mut starts: usize = 0;
    let mut ends: usize = 0;
    let mut i: usize = 0;
    while i < events.len()
        invariant
            evs == events_view(events@),
            i <= events@.len(),
            starts <= i,
            ends <= i,
            starts == opened(evs.subrange(0, i as int)),
            ends == closed(evs.subrange(0, i as int)),
        decreases events@.len() - i,
    {
        assert(evs.subrange(0, i + 1).drop_last() =~= evs.subrange(0, i as int));
        match &events[i] {
            XmlEvent::Start(..) => starts = starts + 1,
            XmlEvent::End(..) => ends = ends + 1,
            _ => {},
        }
        i = i + 1;
    }
    assert(evs =~= evs.subrange(0, i as int));
    starts == ends
}

/// Reads a match-report document and builds its report: `Malformed` where
/// the markup cannot be scanned or ends with elements still open (a document
/// cut off mid-way), else the report of the scanned events, or `NoData` where
/// they name neither a map nor a team.
pub fn parse_content(data: String) -> (r: Result<MatchReport, ParseFailure>)
    ensures
        match scanned(data@) {
            None => r matches Err(ParseFailure::Malformed { .. }),
            Some(evs) => if !balanced(evs) {
                r matches Err(ParseFailure::Malformed { .. })
            } else {
                match report_of(evs) {
                    Some(m) => r matches Ok(x) && x@ == m,
                    None => r matches Err(ParseFailure::NoData),
                }
            },
        },
{
    match read_events(data.as_str()) {
        Err(f) => Err(f),
        Ok(events) => {
            if !is_balanced(&events) {
                let mut cause = String::new();
                push_text(&mut cause, "elements left open at end of input");
                Err(ParseFailure::Malformed { position: data.as_str().len() as u64, cause })
            } else {
                parse_events(&events)
            }
        },
    }
}

} // verus!

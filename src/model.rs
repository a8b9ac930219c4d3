//! The typed match report and its mathematical model.

use vstd::prelude::*;

verus! {

/// Per-weapon counters of one player.
#[derive(Debug)]
pub struct Weapon {
    pub name: String,
    pub hits: u32,
    pub shots: u32,
    pub kills: u32,
}

/// One player: a name, statistics in document order, and weapons.
#[derive(Debug)]
pub struct Player {
    pub name: String,
    pub stats: Vec<(String, String)>,
    pub weapons: Vec<Weapon>,
}

/// A team: a score label and its players in document order.
#[derive(Debug)]
pub struct Team {
    pub score: String,
    pub players: Vec<Player>,
}

/// The parsed outcome of one match.
#[derive(Debug)]
pub struct MatchReport {
    pub map: String,
    pub match_type: String,
    pub duration: String,
    pub is_team_game: bool,
    pub teams: Vec<Team>,
}

/// Why a document yields no report.
#[derive(Debug)]
pub enum ParseFailure {
    /// The markup could not be scanned; the byte offset and the scanner's message.
    Malformed { position: u64, cause: String },
    /// The document was well formed but named neither a map nor any team.
    NoData,
}

pub struct WeaponModel {
    pub name: Seq<char>,
    pub hits: u32,
    pub shots: u32,
    pub kills: u32,
}

pub struct PlayerModel {
    pub name: Seq<char>,
    pub stats: Seq<(Seq<char>, Seq<char>)>,
    pub weapons: Seq<WeaponModel>,
}

pub struct TeamModel {
    pub score: Seq<char>,
    pub players: Seq<PlayerModel>,
}

pub struct ReportModel {
    pub map: Seq<char>,
    pub match_type: Seq<char>,
    pub duration: Seq<char>,
    pub is_team_game: bool,
    pub teams: Seq<TeamModel>,
}

pub open spec fn stat_view(s: (String, String)) -> (Seq<char>, Seq<char>) {
    (s.0@, s.1@)
}

impl View for Weapon {
    type V = WeaponModel;

    open spec fn view(&self) -> WeaponModel {
        WeaponModel { name: self.name@, hits: self.hits, shots: self.shots, kills: self.kills }
    }
}

impl View for Player {
    type V = PlayerModel;

    open spec fn view(&self) -> PlayerModel {
        PlayerModel {
            name: self.name@,
            stats: self.stats@.map_values(|s: (String, String)| stat_view(s)),
            weapons: self.weapons@.map_values(|w: Weapon| w@),
        }
    }
}

impl View for Team {
    type V = TeamModel;

    open spec fn view(&self) -> TeamModel {
        TeamModel { score: self.score@, players: self.players@.map_values(|p: Player| p@) }
    }
}

impl View for MatchReport {
    type V = ReportModel;

    open spec fn view(&self) -> ReportModel {
        ReportModel {
            map: self.map@,
            match_type: self.match_type@,
            duration: self.duration@,
            is_team_game: self.is_team_game,
            teams: self.teams@.map_values(|t: Team| t@),
        }
    }
}

impl MatchReport {
    /// A report with empty labels, no flag and no teams.
    pub fn new() -> (r: MatchReport)
        ensures
            r@ == empty_report(),
    {
        let r = MatchReport {
            map: String::new(),
            match_type: String::new(),
            duration: String::new(),
            is_team_game: false,
            teams: Vec::new(),
        };
        assert(r@.teams =~= Seq::<TeamModel>::empty());
        r
    }
}

pub open spec fn empty_report() -> ReportModel {
    ReportModel {
        map: Seq::empty(),
        match_type: Seq::empty(),
        duration: Seq::empty(),
        is_team_game: false,
        teams: Seq::empty(),
    }
}

} // verus!

use q3reportbot::model::{MatchReport, Player, Team, Weapon};
use q3reportbot::parser::parse_content;
use q3reportbot::report::format_match_report;
use q3reportbot::text::escape_markdown;

fn player(name: &str, stats: &[(&str, &str)], weapons: Vec<Weapon>) -> Player {
    Player {
        name: name.to_string(),
        stats: stats.iter().map(|(a, b)| (a.to_string(), b.to_string())).collect(),
        weapons,
    }
}

fn weapon(name: &str, hits: u32, shots: u32, kills: u32) -> Weapon {
    Weapon { name: name.to_string(), hits, shots, kills }
}

fn sample() -> MatchReport {
    MatchReport {
        map: "q3dm6".to_string(),
        match_type: "TDM".to_string(),
        duration: "10:00".to_string(),
        is_team_game: true,
        teams: vec![
            Team { score: "5".to_string(), players: vec![player("Player1", &[("Kills", "7")], vec![weapon("MG", 13, 29, 2)])] },
            Team { score: "-1".to_string(), players: vec![player("P_2", &[], vec![]), player("P3", &[], vec![])] },
        ],
    }
}

#[test]
fn escape_prefixes_reserved_characters() {
    assert_eq!(escape_markdown("a.b-c!"), "a\\.b\\-c\\!");
    assert_eq!(escape_markdown("*_[]()~>#+-=|{}.!"), "\\*\\_\\[\\]\\(\\)\\~\\>\\#\\+\\-\\=\\|\\{\\}\\.\\!");
    assert_eq!(escape_markdown("plain 10:00"), "plain 10:00");
    assert_eq!(escape_markdown(""), "");
}

#[test]
fn full_report_text() {
    let text = format_match_report(&sample());
    let expected = "*Match concluded*\n\
Map: q3dm6 \\| Type: TDM \\| Duration: 10:00\n\n\
*Team One*: *5*\n\
```\nPlayer: Player1\nKills: 7\nWeapons: \nMG: Shots: 29 \\| Acc. 44% \\| Kills: 2\n```\n\
*Team Two*: *\\-1*\n\
```\nPlayer: P_2\n```\n\
```\nPlayer: P3\n```\n";
    assert_eq!(text, expected);
}

#[test]
fn solo_format_has_no_team_labels() {
    let mut m = sample();
    m.is_team_game = false;
    m.map = "ztn3tourney1".to_string();
    let text = format_match_report(&m);
    assert!(!text.contains("Team One"));
    assert!(!text.contains("Team Two"));
    assert!(text.starts_with("*Match concluded*\nMap: ztn3tourney1 \\| Type: TDM"));
}

#[test]
fn player_names_stay_verbatim() {
    let text = format_match_report(&sample());
    assert!(text.contains("Player: P_2\n"));
    assert!(!text.contains("P\\_2"));
}

#[test]
fn format_is_deterministic_and_ordered() {
    let m = sample();
    let a = format_match_report(&m);
    let b = format_match_report(&m);
    assert_eq!(a, b);
    let p1 = a.find("Player1").unwrap();
    let p2 = a.find("P_2").unwrap();
    let p3 = a.find("P3").unwrap();
    assert!(p1 < p2 && p2 < p3);
}

#[test]
fn escaped_fields_in_report() {
    let m = MatchReport {
        map: "dm.1".to_string(),
        match_type: "F-F-A".to_string(),
        duration: "(5)".to_string(),
        is_team_game: false,
        teams: vec![Team {
            score: "x".to_string(),
            players: vec![player("a.b", &[("K.D", "1.5")], vec![weapon("L*G", 1, 0, 0)])],
        }],
    };
    let text = format_match_report(&m);
    assert!(text.contains("Map: dm\\.1 \\| Type: F\\-F\\-A \\| Duration: \\(5\\)\n"));
    assert!(text.contains("Player: a.b\n"));
    assert!(text.contains("K\\.D: 1\\.5\n"));
    assert!(text.contains("L\\*G: Shots: 0 \\| Acc. 100% \\| Kills: 0\n"));
}

#[test]
fn denied_stats_never_rendered() {
    let xml = r#"<match map="m"><player name="A"><stat name="Haste" value="1"/><stat name="YA" value="2"/><stat name="Haste" value="3"/><stat name="Blue Flag" value="1"/></player></match>"#;
    let text = format_match_report(&parse_content(xml.to_string()).unwrap());
    assert!(!text.contains("Haste"));
    assert!(!text.contains("YA"));
    assert!(!text.contains("Blue Flag"));
}

#[test]
fn team_game_weapon_line_example() {
    let xml = r#"<match map="q3dm6" type="TDM" isTeamGame="true"><team score="5"><player name="Player1"><weapon name="MG" hits="13" shots="29" kills="2"/></player></team></match>"#;
    let text = format_match_report(&parse_content(xml.to_string()).unwrap());
    assert!(text.contains("*Team One*: *5*\n"));
    assert!(text.contains("MG: Shots: 29 \\| Acc. 44% \\| Kills: 2\n"));
}

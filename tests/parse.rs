use q3reportbot::model::ParseFailure;
use q3reportbot::parser::{parse_content, parse_events};
use q3reportbot::report::accuracy;
use q3reportbot::xml::{Attribute, XmlEvent};

const TEAM_MATCH: &str = r#"<?xml version="1.0" encoding="UTF-8"?>
<match map="q3dm6" type="TDM" duration="10:00" isTeamGame="true">
  <team name="Red" score="5">
    <player name="Player1">
      <stat name="Score" value="5"/>
      <stat name="Kills" value="7"/>
      <stat name="MH" value="2"/>
      <weapon name="MG" hits="13" shots="29" kills="2"/>
      <weapon name="RL" hits="4" shots="10" kills="3"/>
    </player>
  </team>
  <team name="Blue" score="0">
    <player name="Player2">
      <stat name="Score" value="0"/>
    </player>
    <player name="Player3">
      <stat name="Score" value="-1"/>
    </player>
  </team>
</match>
"#;

const DUEL: &str = r#"<?xml version="1.0" encoding="UTF-8"?>
<match map="q3dm6" type="1v1" duration="5:00">
  <player name="KDZ:VaNeZzz">
    <stat name="Score" value="1"/>
    <weapon name="RG" hits="3" shots="9" kills="1"/>
  </player>
  <player name="Opponent">
    <stat name="Score" value="0"/>
  </player>
</match>
"#;

fn attr(k: &str, v: &[u8]) -> Attribute {
    Attribute { key: k.as_bytes().to_vec(), value: v.to_vec() }
}

#[test]
fn test_parse_1v1() {
    let xml = DUEL.to_string();
    let result = parse_content(xml).unwrap();
    assert_eq!(result.map, "q3dm6");
    assert_eq!(result.match_type, "1v1");
    assert!(!result.is_team_game);
    assert_eq!(result.teams.len(), 2);
    assert_eq!(result.teams[0].players[0].name, "KDZ:VaNeZzz");
    assert_eq!(result.teams[0].score, "1");
}

#[test]
fn test_parse_content() {
    let xml = TEAM_MATCH.to_string();
    let result = parse_content(xml).unwrap();
    assert_eq!(result.map, "q3dm6");
    assert_eq!(result.match_type, "TDM");
    assert_eq!(result.teams.len(), 2);

    // Team One (Score 5)
    assert_eq!(result.teams[0].score, "5");
    assert_eq!(result.teams[0].players.len(), 1);
    assert_eq!(result.teams[0].players[0].name, "Player1");
    assert_eq!(result.teams[0].players[0].weapons.len(), 2);

    // MG Accuracy: 13/29 = 44%
    let mg = &result.teams[0].players[0].weapons[0];
    assert_eq!(mg.name, "MG");
    assert_eq!(mg.hits, 13);
    assert_eq!(mg.shots, 29);
    let mg_acc = (mg.hits * 100) / mg.shots;
    assert_eq!(mg_acc, 44);

    // Team Two (Score 0)
    assert_eq!(result.teams[1].score, "0");
    assert_eq!(result.teams[1].players.len(), 2);
    assert_eq!(result.teams[1].players[0].name, "Player2");
    assert_eq!(result.teams[1].players[1].name, "Player3");
}

#[test]
fn parse_keeps_labels_and_flag() {
    let result = parse_content(TEAM_MATCH.to_string()).unwrap();
    assert_eq!(result.duration, "10:00");
    assert!(result.is_team_game);
}

#[test]
fn denied_stats_are_dropped() {
    let xml = r#"<match map="m"><player name="A"><stat name="MH" value="1"/><stat name="Quad" value="2"/><stat name="MH" value="3"/><stat name="Red Flag" value="1"/><stat name="Kills" value="4"/></player></match>"#;
    let result = parse_content(xml.to_string()).unwrap();
    let stats = &result.teams[0].players[0].stats;
    assert_eq!(stats.len(), 1);
    assert_eq!(stats[0].0, "Kills");
    assert_eq!(stats[0].1, "4");
}

#[test]
fn document_without_structure_has_no_data() {
    let xml = r#"<root><info text="x"/><other>text</other></root>"#;
    assert!(matches!(parse_content(xml.to_string()), Err(ParseFailure::NoData)));
    assert!(matches!(parse_content(String::new()), Err(ParseFailure::NoData)));
}

#[test]
fn malformed_markup_fails() {
    let xml = r#"<match map="m"><team score="1"></match>"#;
    assert!(matches!(parse_content(xml.to_string()), Err(ParseFailure::Malformed { .. })));
}

#[test]
fn missing_team_game_flag_is_false() {
    let xml = r#"<match map="m" type="TDM"/>"#;
    let start = r#"<match map="m" type="TDM"></match>"#;
    assert!(!parse_content(start.to_string()).unwrap().is_team_game);
    assert!(matches!(parse_content(xml.to_string()), Err(ParseFailure::NoData)));
}

#[test]
fn unrecognised_team_game_flag_is_false() {
    let xml = r#"<match map="m" isTeamGame="yes"></match>"#;
    assert!(!parse_content(xml.to_string()).unwrap().is_team_game);
    let xml = r#"<match map="m" isTeamGame="false"></match>"#;
    assert!(!parse_content(xml.to_string()).unwrap().is_team_game);
}

#[test]
fn weapon_counters_default_to_zero() {
    let xml = r#"<match map="m"><player name="A"><weapon name="G" hits="x" shots="-3" kills="+4"/><weapon hits="1"/></player></match>"#;
    let result = parse_content(xml.to_string()).unwrap();
    let ws = &result.teams[0].players[0].weapons;
    assert_eq!(ws.len(), 1);
    assert_eq!(ws[0].name, "G");
    assert_eq!(ws[0].hits, 0);
    assert_eq!(ws[0].shots, 0);
    assert_eq!(ws[0].kills, 4);
}

#[test]
fn leaves_outside_a_player_are_dropped() {
    let xml = r#"<match map="m"><stat name="Kills" value="1"/><weapon name="G" hits="1"/><team score="2"><player name="A"></player></team></match>"#;
    let result = parse_content(xml.to_string()).unwrap();
    assert_eq!(result.teams.len(), 1);
    assert_eq!(result.teams[0].score, "2");
    assert!(result.teams[0].players[0].stats.is_empty());
    assert!(result.teams[0].players[0].weapons.is_empty());
}

#[test]
fn solo_player_gets_own_team() {
    let xml = r#"<match><player name="A"><stat name="Kills" value="3"/><stat name="Score" value="7"/><stat name="Score" value="9"/></player><player name="B"></player></match>"#;
    let result = parse_content(xml.to_string()).unwrap();
    assert_eq!(result.map, "");
    assert_eq!(result.teams.len(), 2);
    assert_eq!(result.teams[0].score, "7");
    assert_eq!(result.teams[0].players.len(), 1);
    assert_eq!(result.teams[0].players[0].name, "A");
    assert_eq!(result.teams[1].score, "");
    assert_eq!(result.teams[1].players[0].name, "B");
}

#[test]
fn team_attribute_wins_over_player_score() {
    let xml = r#"<match map="m"><team score="3"><player name="A"><stat name="Score" value="8"/></player></team></match>"#;
    let result = parse_content(xml.to_string()).unwrap();
    assert_eq!(result.teams[0].score, "3");
}

#[test]
fn invalid_bytes_are_replaced() {
    let events = vec![
        XmlEvent::Start(b"match".to_vec(), vec![attr("map", b"q3\xffdm6")]),
        XmlEvent::End(b"match".to_vec()),
    ];
    let result = parse_events(&events).unwrap();
    assert_eq!(result.map, "q3\u{FFFD}dm6");
}

#[test]
fn last_attribute_of_a_key_wins() {
    let events = vec![XmlEvent::Start(
        b"match".to_vec(),
        vec![attr("map", b"a"), attr("type", b"CTF"), attr("map", b"b"), attr("isTeamGame", b"true")],
    )];
    let result = parse_events(&events).unwrap();
    assert_eq!(result.map, "b");
    assert_eq!(result.match_type, "CTF");
    assert!(result.is_team_game);
}

#[test]
fn no_events_no_data() {
    let events: Vec<XmlEvent> = Vec::new();
    assert!(matches!(parse_events(&events), Err(ParseFailure::NoData)));
}

#[test]
fn accuracy_caps_at_hundred() {
    assert_eq!(accuracy(50, 40), 100);
    assert_eq!(accuracy(7, 7), 100);
}

#[test]
fn accuracy_without_shots_is_zero() {
    assert_eq!(accuracy(0, 0), 0);
}

#[test]
fn accuracy_is_floored() {
    assert_eq!(accuracy(13, 29), 44);
    assert_eq!(accuracy(0, 5), 0);
    assert_eq!(accuracy(4_000_000_000, 4_000_000_001), 99);
}

#[test]
fn leaves_and_foreign_map_without_match_have_no_data() {
    let xml = "<report><stat name='Kills' value='3'/><weapon name='MG' hits='1' shots='2' kills='0'/><info map='q3dm6'/></report>";
    assert!(matches!(parse_content(xml.to_string()), Err(ParseFailure::NoData)));
}

#[test]
fn unclosed_team_is_malformed_not_partial() {
    let xml = "<match map='q3dm6' type='TDM'><team score='5'></match>";
    assert!(matches!(parse_content(xml.to_string()), Err(ParseFailure::Malformed { .. })));
}

#[test]
fn flag_follows_only_the_true_literal() {
    for (v, expected) in [("true", true), ("false", false), ("yes", false), ("1", false), ("True", false), ("", false)] {
        let xml = format!("<match map='x' isTeamGame='{}'></match>", v);
        assert_eq!(parse_content(xml).unwrap().is_team_game, expected);
    }
}

#[test]
fn denylist_is_exact_and_case_sensitive() {
    let xml = "<match map='m'><player name='A'><stat name='Quad' value='1'/><stat name='quad' value='2'/><stat name='Red Flag ' value='3'/></player></match>";
    let result = parse_content(xml.to_string()).unwrap();
    let stats = &result.teams[0].players[0].stats;
    assert_eq!(stats.len(), 2);
    assert_eq!(stats[0], ("quad".to_string(), "2".to_string()));
    assert_eq!(stats[1], ("Red Flag ".to_string(), "3".to_string()));
}

#[test]
fn two_solo_players_two_teams() {
    let xml = "<match map='q3dm6' type='1v1'><player name='A'><stat name='Score' value='1'/></player><player name='B'></player></match>";
    let m = parse_content(xml.to_string()).unwrap();
    assert_eq!(m.teams.len(), 2);
    assert_eq!(m.teams[0].score, "1");
    assert_eq!(m.teams[0].players.len(), 1);
    assert_eq!(m.teams[0].players[0].name, "A");
    assert_eq!(m.teams[1].score, "");
    assert_eq!(m.teams[1].players.len(), 1);
    assert_eq!(m.teams[1].players[0].name, "B");
    assert!(!m.is_team_game);
}

#[test]
fn truncated_document_is_malformed() {
    let xml = "<match map='q3dm6'><team score='5'><player name='A'>";
    match parse_content(xml.to_string()) {
        Err(ParseFailure::Malformed { position, .. }) => assert_eq!(position, xml.len() as u64),
        other => panic!("expected a structural failure, got {:?}", other),
    }
    let cut = &TEAM_MATCH[..TEAM_MATCH.find("</team>").unwrap()];
    assert!(matches!(parse_content(cut.to_string()), Err(ParseFailure::Malformed { .. })));
}

#[test]
fn closed_leaves_keep_document_balanced() {
    let xml = "<match map='q3dm6'><player name='A'><stat name='Score' value='2'/></player></match>";
    let m = parse_content(xml.to_string()).unwrap();
    assert_eq!(m.teams[0].score, "2");
}

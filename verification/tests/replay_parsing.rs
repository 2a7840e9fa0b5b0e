use slippi_ratings::replay::replay_match;
use slippi_ratings::game::{CSSCharacter, EndMethod, Stage};
use slippi_ratings::replay::{
    CharacterCount, MetadataPlayer, PlayerKind, PortFrame, ReplayData, ReplayEnd, ReplayError,
    ReplayMetadata, ReplayPlayer, count_r_presses, parse_replay, try_parse_replay,
};
use slippi_ratings::settings::Players;

const R: u16 = 1 << 5;

fn players() -> Players {
    Players { p1_id: "AAAA#1".to_string(), p2_id: "BBBB#2".to_string() }
}

fn usage(entries: &[(&str, Option<i64>)]) -> Option<Vec<CharacterCount>> {
    Some(entries.iter().map(|(c, n)| CharacterCount { character: c.to_string(), count: *n }).collect())
}

fn frame(b0: u16, b1: u16, s0: u8, s1: u8) -> Vec<PortFrame> {
    vec![PortFrame { buttons: b0, stocks: s0 }, PortFrame { buttons: b1, stocks: s1 }]
}

/// An offline game on Battlefield: Fox (in-game 1) at port 0 against Marth (18) at port 1;
/// the second player presses R more often and wins.
fn offline_game() -> ReplayData {
    ReplayData {
        metadata: Some(ReplayMetadata {
            start_at: Some("2024-05-01T12:00:00Z".to_string()),
            players: Some(vec![
                MetadataPlayer { key: "0".to_string(), characters: usage(&[("1", Some(500))]) },
                MetadataPlayer { key: "1".to_string(), characters: usage(&[("18", Some(400)), ("9", Some(10))]) },
            ]),
        }),
        hash: Some("abc123".to_string()),
        match_id: None,
        end: Some(ReplayEnd {
            method: EndMethod::Game,
            lras_initiator: Some(None),
            placements: Some(vec![1, 0]),
        }),
        frames: vec![frame(0, R, 4, 4), frame(R, R | 1, 3, 4), frame(0, R, 0, 2)],
        players: vec![
            ReplayPlayer { kind: PlayerKind::Human, port: 0, netplay_code: None },
            ReplayPlayer { kind: PlayerKind::Human, port: 1, netplay_code: None },
        ],
        stage: 31,
    }
}

fn online_game() -> ReplayData {
    let mut g = offline_game();
    g.match_id = Some("mode.direct-2024".to_string());
    g.players[0].netplay_code = Some("BBBB#2".to_string());
    g.players[1].netplay_code = Some("AAAA#1".to_string());
    g.end = Some(ReplayEnd { method: EndMethod::Time, lras_initiator: Some(Some(1)), placements: Some(vec![0, 1]) });
    g
}

#[test]
fn count_r_presses_counts_bit_five() {
    let g = offline_game();
    assert_eq!(count_r_presses(&g.frames), Ok(vec![1, 3]));
    assert_eq!(count_r_presses(&vec![]), Err(ReplayError::NoFrames));
    let other_bits = vec![frame(0xFFFF & !R, 1 << 4, 0, 0)];
    assert_eq!(count_r_presses(&other_bits), Ok(vec![0, 0]));
}

#[test]
fn offline_replay_names_the_r_leader_player_one() {
    let m = parse_replay(&offline_game(), &players()).unwrap();
    assert_eq!(m.hash, "abc123");
    assert_eq!(m.datetime, 1714564800);
    assert_eq!(m.frames, 3);
    assert_eq!(m.stage, Stage::BattleField);
    assert!(!m.is_online);
    assert!(!m.ignore);
    assert_eq!(m.end_method, EndMethod::Game);
    assert_eq!(m.lras_initiator, None);
    // The second player pressed R the most, so they are player 1 and come first.
    assert_eq!(m.players.0.code, "AAAA#1");
    assert_eq!(m.players.0.port, 1);
    assert_eq!(m.players.0.character, CSSCharacter::Marth);
    assert_eq!(m.players.0.stocks, 2);
    assert!(m.players.0.won);
    assert_eq!(m.players.1.code, "BBBB#2");
    assert_eq!(m.players.1.port, 0);
    assert_eq!(m.players.1.character, CSSCharacter::Fox);
    assert_eq!(m.players.1.stocks, 0);
    assert!(!m.players.1.won);
}

#[test]
fn r_press_tie_goes_to_the_later_player() {
    let mut g = offline_game();
    g.frames = vec![frame(R, R, 1, 1)];
    let m = parse_replay(&g, &players()).unwrap();
    assert_eq!(m.players.0.port, 1);
    assert_eq!(m.players.0.code, "AAAA#1");
}

#[test]
fn online_replay_uses_netplay_codes() {
    let m = parse_replay(&online_game(), &players()).unwrap();
    assert!(m.is_online);
    assert_eq!(m.players.0.code, "AAAA#1");
    assert_eq!(m.players.0.port, 1);
    assert!(!m.players.0.won);
    assert_eq!(m.players.1.code, "BBBB#2");
    assert!(m.players.1.won);
    assert_eq!(m.end_method, EndMethod::Time);
    assert_eq!(m.lras_initiator, Some(1));
}

#[test]
fn empty_match_id_is_offline() {
    let mut g = online_game();
    g.match_id = Some(String::new());
    let m = parse_replay(&g, &players()).unwrap();
    assert!(!m.is_online);
}

#[test]
fn most_used_character_wins_ties_by_position() {
    let mut g = offline_game();
    g.metadata.as_mut().unwrap().players.as_mut().unwrap()[1].characters =
        usage(&[("18", Some(10)), ("9", Some(10)), ("2", None)]);
    let m = parse_replay(&g, &players()).unwrap();
    assert_eq!(m.players.0.character, CSSCharacter::Peach);
}

#[test]
fn popo_is_ice_climbers() {
    let mut g = offline_game();
    g.metadata.as_mut().unwrap().players.as_mut().unwrap()[0].characters = usage(&[("10", Some(3))]);
    let m = parse_replay(&g, &players()).unwrap();
    assert_eq!(m.players.1.character, CSSCharacter::IceClimbers);
}

fn error_of(g: ReplayData) -> ReplayError {
    parse_replay(&g, &players()).unwrap_err()
}

#[test]
fn replay_errors_in_order() {
    let mut g = offline_game();
    g.metadata = None;
    assert_eq!(error_of(g), ReplayError::MissingMetadata);

    let mut g = offline_game();
    g.hash = None;
    assert_eq!(error_of(g), ReplayError::MissingHash);

    let mut g = offline_game();
    g.metadata.as_mut().unwrap().start_at = None;
    assert_eq!(error_of(g), ReplayError::MissingStartAt);

    let mut g = offline_game();
    g.metadata.as_mut().unwrap().start_at = Some("yesterday".to_string());
    assert_eq!(error_of(g), ReplayError::InvalidStartAt);

    let mut g = offline_game();
    g.end = None;
    assert_eq!(error_of(g), ReplayError::MissingEnd);

    let mut g = offline_game();
    g.frames = vec![];
    assert_eq!(error_of(g), ReplayError::NoFrames);

    let mut g = offline_game();
    g.players[1].kind = PlayerKind::Cpu;
    assert_eq!(error_of(g), ReplayError::NonHumanPlayer);

    let mut g = online_game();
    g.players[0].netplay_code = None;
    assert_eq!(error_of(g), ReplayError::MissingNetplay);

    let mut g = online_game();
    g.players[1].netplay_code = Some("ZZZZ#9".to_string());
    assert_eq!(error_of(g), ReplayError::UnrecognizedPlayer);

    let mut g = offline_game();
    g.metadata.as_mut().unwrap().players = None;
    assert_eq!(error_of(g), ReplayError::MissingCharacterMetadata);

    let mut g = offline_game();
    g.metadata.as_mut().unwrap().players.as_mut().unwrap()[1].key = "3".to_string();
    assert_eq!(error_of(g), ReplayError::MissingCharacterMetadata);

    let mut g = offline_game();
    g.metadata.as_mut().unwrap().players.as_mut().unwrap()[0].characters = Some(vec![]);
    assert_eq!(error_of(g), ReplayError::NoCharacters);

    let mut g = offline_game();
    g.metadata.as_mut().unwrap().players.as_mut().unwrap()[0].characters = usage(&[("fox", Some(1))]);
    assert_eq!(error_of(g), ReplayError::InvalidCharacterNumber);

    let mut g = offline_game();
    g.frames.push(vec![PortFrame { buttons: 0, stocks: 1 }]);
    assert_eq!(error_of(g), ReplayError::MissingPortData);

    let mut g = offline_game();
    g.end.as_mut().unwrap().placements = None;
    assert_eq!(error_of(g), ReplayError::MissingPlacements);

    let mut g = offline_game();
    g.end.as_mut().unwrap().placements = Some(vec![0]);
    assert_eq!(error_of(g), ReplayError::MissingPlacement);

    let mut g = offline_game();
    g.metadata.as_mut().unwrap().players.as_mut().unwrap()[0].characters = usage(&[("27", Some(1))]);
    assert_eq!(error_of(g), ReplayError::InvalidCharacter);

    let mut g = offline_game();
    g.players.pop();
    assert_eq!(error_of(g), ReplayError::NotTwoPlayers);

    let mut g = offline_game();
    g.stage = 33;
    assert_eq!(error_of(g), ReplayError::InvalidStage);
}

#[test]
fn earlier_player_errors_come_first() {
    let mut g = offline_game();
    g.players[0].kind = PlayerKind::Demo;
    g.metadata.as_mut().unwrap().players = None;
    assert_eq!(error_of(g), ReplayError::NonHumanPlayer);

    let mut g = offline_game();
    g.players.push(ReplayPlayer { kind: PlayerKind::Cpu, port: 2, netplay_code: None });
    assert_eq!(error_of(g), ReplayError::NonHumanPlayer);
}

#[test]
fn replay_with_a_given_start_time() {
    let m = replay_match(&offline_game(), &players(), Some(7)).unwrap();
    assert_eq!(m.datetime, 7);
    assert_eq!(replay_match(&offline_game(), &players(), None).unwrap_err(), ReplayError::InvalidStartAt);
}

fn three_port_frame() -> Vec<PortFrame> {
    vec![
        PortFrame { buttons: R, stocks: 4 },
        PortFrame { buttons: 0, stocks: 4 },
        PortFrame { buttons: 0, stocks: 4 },
    ]
}

#[test]
fn three_ports_without_metadata_is_missing_metadata() {
    let mut g = offline_game();
    g.metadata = None;
    g.frames.push(three_port_frame());
    assert_eq!(parse_replay(&g, &players()).unwrap_err(), ReplayError::MissingMetadata);
    assert_eq!(try_parse_replay(&g, &players()).unwrap().unwrap_err(), ReplayError::MissingMetadata);
}

#[test]
fn three_ports_without_end_is_missing_end() {
    let mut g = offline_game();
    g.end = None;
    g.frames.push(three_port_frame());
    assert_eq!(parse_replay(&g, &players()).unwrap_err(), ReplayError::MissingEnd);
}

#[test]
fn three_ports_reached_by_the_count_gives_no_outcome() {
    let mut g = offline_game();
    g.frames.push(three_port_frame());
    assert!(try_parse_replay(&g, &players()).is_none());
}

#[test]
fn try_parse_agrees_with_parse_on_two_ports() {
    let a = parse_replay(&offline_game(), &players()).unwrap();
    let b = try_parse_replay(&offline_game(), &players()).unwrap().unwrap();
    assert_eq!(a.players.0.code, b.players.0.code);
    assert_eq!(a.datetime, b.datetime);
}

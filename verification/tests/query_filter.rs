use slippi_ratings::game::{CSSCharacter, EndMethod, Match, PlayerInfo, Stage};
use slippi_ratings::query::{MatchesQuery, MatchesQueryPlayer, match_filter, player_matches, query_store};
use slippi_ratings::store::MatchStore;

fn side(code: &str, character: CSSCharacter, stocks: u8, won: bool) -> PlayerInfo {
    PlayerInfo { code: code.to_string(), port: 0, character, stocks, won }
}

fn game(datetime: i64, frames: usize, online: bool) -> Match {
    Match {
        hash: String::new(),
        datetime,
        frames,
        stage: Stage::PokemonStadium,
        players: (side("AAAA#1", CSSCharacter::Fox, 2, true), side("BBBB#2", CSSCharacter::Marth, 0, false)),
        is_online: online,
        end_method: EndMethod::Game,
        lras_initiator: None,
        ignore: false,
    }
}

fn any_player() -> MatchesQueryPlayer {
    MatchesQueryPlayer { code: None, character: None, stocks: None, won: None }
}

fn any_query() -> MatchesQuery {
    MatchesQuery { start_date: None, end_date: None, min_length: None, stage: None, players: (None, None), is_online: None }
}

#[test]
fn empty_query_keeps_every_match() {
    assert!(match_filter(&game(0, 0, false), &any_query()));
    assert!(match_filter(&game(i64::MIN, usize::MAX, true), &any_query()));
}

#[test]
fn player_conditions() {
    let p = side("AAAA#1", CSSCharacter::Fox, 2, true);
    assert!(player_matches(&p, &any_player()));
    assert!(player_matches(&p, &MatchesQueryPlayer { code: Some("AAAA#1".to_string()), character: Some(CSSCharacter::Fox), stocks: Some(2), won: Some(true) }));
    assert!(!player_matches(&p, &MatchesQueryPlayer { code: Some("AAAA".to_string()), ..any_player() }));
    assert!(!player_matches(&p, &MatchesQueryPlayer { character: Some(CSSCharacter::Falco), ..any_player() }));
    assert!(!player_matches(&p, &MatchesQueryPlayer { stocks: Some(1), ..any_player() }));
    assert!(!player_matches(&p, &MatchesQueryPlayer { won: Some(false), ..any_player() }));
}

#[test]
fn date_conditions_read_naive_utc_dates() {
    // 2024-01-01T00:00:00 UTC
    let t = 1704067200;
    let q = MatchesQuery { start_date: Some("2024-01-01T00:00:00".to_string()), ..any_query() };
    assert!(match_filter(&game(t, 0, false), &q));
    assert!(!match_filter(&game(t - 1, 0, false), &q));
    let q = MatchesQuery { end_date: Some("2024-01-01T00:00:00".to_string()), ..any_query() };
    assert!(match_filter(&game(t, 0, false), &q));
    assert!(!match_filter(&game(t + 1, 0, false), &q));
    // A date that does not read is no condition.
    let q = MatchesQuery { start_date: Some("2024-01-01".to_string()), ..any_query() };
    assert!(match_filter(&game(0, 0, false), &q));
}

#[test]
fn other_match_conditions() {
    let m = game(100, 500, true);
    assert!(match_filter(&m, &MatchesQuery { min_length: Some(500), ..any_query() }));
    assert!(!match_filter(&m, &MatchesQuery { min_length: Some(501), ..any_query() }));
    assert!(match_filter(&m, &MatchesQuery { stage: Some(Stage::PokemonStadium), ..any_query() }));
    assert!(!match_filter(&m, &MatchesQuery { stage: Some(Stage::Brinstar), ..any_query() }));
    assert!(match_filter(&m, &MatchesQuery { is_online: Some(true), ..any_query() }));
    assert!(!match_filter(&m, &MatchesQuery { is_online: Some(false), ..any_query() }));
    let second_won = MatchesQueryPlayer { won: Some(true), ..any_player() };
    assert!(match_filter(&m, &MatchesQuery { players: (Some(any_player()), None), ..any_query() }));
    assert!(!match_filter(&m, &MatchesQuery { players: (None, Some(second_won)), ..any_query() }));
}

#[test]
fn query_store_filters_the_counted_matches() {
    let mut store = MatchStore::new();
    store.insert("a".to_string(), game(1, 1000, true));
    store.insert("b".to_string(), game(2, 1000, false));
    store.insert("c".to_string(), game(3, 10, true));
    let found = query_store(&store, 100, &MatchesQuery { is_online: Some(true), ..any_query() });
    let times: Vec<i64> = found.iter().map(|m| m.datetime).collect();
    assert_eq!(times, vec![1]);
    assert_eq!(query_store(&store, 100, &any_query()).len(), 2);
}

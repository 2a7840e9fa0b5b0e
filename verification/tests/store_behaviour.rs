use slippi_ratings::game::{CSSCharacter, EndMethod, Match, PlayerInfo, Stage};
use slippi_ratings::replay::ReplayError;
use slippi_ratings::store::MatchStore;

fn side(code: &str, character: CSSCharacter, won: bool) -> PlayerInfo {
    PlayerInfo { code: code.to_string(), port: 0, character, stocks: if won { 1 } else { 0 }, won }
}

fn game(datetime: i64, frames: usize, end: EndMethod, ignore: bool) -> Match {
    Match {
        hash: format!("h{datetime}"),
        datetime,
        frames,
        stage: Stage::FinalDestination,
        players: (side("AAAA#1", CSSCharacter::Fox, true), side("BBBB#2", CSSCharacter::Falco, false)),
        is_online: false,
        end_method: end,
        lras_initiator: None,
        ignore,
    }
}

#[test]
fn insert_then_get_gives_back_the_match() {
    let mut store = MatchStore::new();
    assert_eq!(store.len(), 0);
    assert!(store.get("a.slp").is_none());
    store.insert("a.slp".to_string(), game(10, 100, EndMethod::Game, false));
    store.insert("b.slp".to_string(), game(20, 100, EndMethod::Game, false));
    assert_eq!(store.get("a.slp").unwrap().datetime, 10);
    assert_eq!(store.get("b.slp").unwrap().datetime, 20);
    store.insert("a.slp".to_string(), game(30, 100, EndMethod::Game, false));
    assert_eq!(store.len(), 2);
    assert_eq!(store.get("a.slp").unwrap().datetime, 30);
    assert_eq!(store.get("b.slp").unwrap().datetime, 20);
    assert!(store.contains_key("b.slp"));
    assert!(!store.contains_key("c.slp"));
    assert_eq!(store.keys(), vec!["a.slp".to_string(), "b.slp".to_string()]);
    let datetimes: Vec<i64> = store.values().iter().map(|m| m.datetime).collect();
    assert_eq!(datetimes, vec![30, 20]);
}

#[test]
fn filtered_values_drop_short_unfinished_and_placeholder_matches() {
    let mut store = MatchStore::new();
    store.insert("keep1".to_string(), game(1, 500, EndMethod::Game, false));
    store.insert("short".to_string(), game(2, 300, EndMethod::Game, false));
    store.insert("unresolved".to_string(), game(3, 500, EndMethod::Unresolved, false));
    store.insert("nocontest".to_string(), game(4, 500, EndMethod::NoContest, false));
    store.insert("ignored".to_string(), game(5, 500, EndMethod::Game, true));
    store.insert("keep2".to_string(), game(6, 301, EndMethod::Time, false));
    store.insert("keep3".to_string(), game(7, 900, EndMethod::Resolved, false));
    let kept: Vec<i64> = store.get_values_filtered(300).iter().map(|m| m.datetime).collect();
    assert_eq!(kept, vec![1, 6, 7]);
}

#[test]
fn newest_match_is_the_latest_stored_last_on_ties() {
    let mut store = MatchStore::new();
    let mut first = game(50, 1, EndMethod::Game, false);
    first.hash = "first".to_string();
    let mut second = game(50, 1, EndMethod::Game, false);
    second.hash = "second".to_string();
    store.insert("x".to_string(), game(10, 1, EndMethod::Game, false));
    store.insert("y".to_string(), first);
    store.insert("z".to_string(), second);
    store.insert("w".to_string(), game(40, 1, EndMethod::Game, false));
    let newest = store.get_newest_match();
    assert_eq!(newest.datetime, 50);
    assert_eq!(newest.hash, "second");
}

#[test]
fn recorded_replays_are_known_afterwards() {
    let mut store = MatchStore::new();
    let parsed = store.record_replay("good.slp".to_string(), Ok(game(5, 100, EndMethod::Game, false)));
    assert_eq!(parsed.unwrap().datetime, 5);
    let none = store.record_replay("bad.slp".to_string(), Err(ReplayError::Unreadable));
    assert!(none.is_none());
    assert!(store.contains_key("good.slp"));
    assert!(store.contains_key("bad.slp"));
    let placeholder = store.get("bad.slp").unwrap();
    assert!(placeholder.ignore);
    assert_eq!(placeholder.end_method, EndMethod::Unresolved);
    assert_eq!(placeholder.players.0.character, CSSCharacter::Empty);
    assert!(store.get_values_filtered(0).iter().all(|m| !m.ignore));
}

use slippi_ratings::dirs::{PatternError, latest_month_dir_of};
use slippi_ratings::dirs::{is_new_replay_candidate, is_replay_file_name, latest_month_dir};
use slippi_ratings::game::Match;
use slippi_ratings::store::MatchStore;

fn names(list: &[&str]) -> Vec<String> {
    list.iter().map(|s| s.to_string()).collect()
}

#[test]
fn latest_month_dir_is_the_last_matching_name() {
    assert_eq!(latest_month_dir(&names(&["2024-01", "notes", "2024-03", "2024-02", "x"])), Ok(Some(3)));
    assert_eq!(latest_month_dir(&names(&["2024-1", "2024-001", " 2024-01", "2024-01 ", "abcd-ef"])), Ok(None));
    assert_eq!(latest_month_dir(&names(&[])), Ok(None));
}

#[test]
fn new_replay_candidates_are_unseen_nonempty_paths() {
    let mut store = MatchStore::new();
    store.insert("C:/Slippi/2024-01/Game_1.slp".to_string(), Match::default());
    assert!(!is_new_replay_candidate("C:/Slippi/2024-01/Game_1.slp", &store));
    assert!(is_new_replay_candidate("C:/Slippi/2024-01/Game_2.slp", &store));
    assert!(!is_new_replay_candidate("", &store));
}

#[test]
fn latest_month_dir_of_takes_the_last_match() {
    assert_eq!(latest_month_dir_of(&vec![Some(true), Some(false), Some(true), Some(false)]), Ok(Some(2)));
    assert_eq!(latest_month_dir_of(&vec![Some(false)]), Ok(None));
    assert_eq!(latest_month_dir_of(&vec![Some(true), None]), Err(PatternError));
}

#[test]
fn replay_file_names_follow_path_extension() {
    for name in ["Game_1.slp", "a.b.slp", ".slp", "slp", "x.slp.bak", "x.SLP", "x.slpx", "..slp", "a.", "", "x..slp"] {
        let expected = std::path::Path::new(name).extension().is_some_and(|ext| ext == "slp");
        assert_eq!(is_replay_file_name(name), expected, "{name:?}");
    }
    assert!(is_replay_file_name("Game_20240101T120000.slp"));
    assert!(!is_replay_file_name(".slp"));
}

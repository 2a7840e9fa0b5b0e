use slippi_ratings::game::{CHARACTER_COUNT, CSSCharacter, EndMethod, Match, PlayerInfo, Stage};
use slippi_ratings::stats::{MatchupCount, RatedGame, daily_schedule, games_per_character, matchup_counts, winner_label};

const DAY: i64 = 86400;

fn side(character: CSSCharacter, won: bool) -> PlayerInfo {
    PlayerInfo { code: String::new(), port: 0, character, stocks: 0, won }
}

fn game(datetime: i64, c0: CSSCharacter, c1: CSSCharacter, p0_won: bool) -> Match {
    Match {
        hash: datetime.to_string(),
        datetime,
        frames: 1000,
        stage: Stage::YoshisStory,
        players: (side(c0, p0_won), side(c1, !p0_won)),
        is_online: false,
        end_method: EndMethod::Game,
        lras_initiator: None,
        ignore: false,
    }
}

#[test]
fn games_per_character_pairs_each_match_with_its_opponent() {
    let matches = vec![
        game(0, CSSCharacter::Fox, CSSCharacter::Marth, true),
        game(1, CSSCharacter::Fox, CSSCharacter::Sheik, false),
        game(2, CSSCharacter::Peach, CSSCharacter::Fox, true),
    ];
    let (p1, p2) = games_per_character(&matches);
    assert_eq!(p1.len(), CHARACTER_COUNT);
    assert_eq!(p2.len(), CHARACTER_COUNT);
    let fox = CSSCharacter::Fox.index();
    assert_eq!(p1[fox], vec![
        RatedGame { opponent: CSSCharacter::Marth.index(), won: true },
        RatedGame { opponent: CSSCharacter::Sheik.index(), won: false },
    ]);
    assert_eq!(p1[CSSCharacter::Peach.index()], vec![RatedGame { opponent: fox, won: true }]);
    assert_eq!(p2[fox], vec![RatedGame { opponent: CSSCharacter::Peach.index(), won: false }]);
    assert_eq!(p2[CSSCharacter::Marth.index()], vec![RatedGame { opponent: fox, won: false }]);
    let total1: usize = p1.iter().map(|g| g.len()).sum();
    let total2: usize = p2.iter().map(|g| g.len()).sum();
    assert_eq!((total1, total2), (3, 3));
}

#[test]
fn daily_schedule_covers_every_day_between_first_and_last() {
    let d0 = 19000 * DAY;
    let matches = vec![
        game(d0 + 3 * DAY + 5, CSSCharacter::Fox, CSSCharacter::Fox, true),
        game(d0 + 10, CSSCharacter::Fox, CSSCharacter::Fox, true),
        game(d0 + DAY - 1, CSSCharacter::Fox, CSSCharacter::Fox, false),
        game(d0 + 3 * DAY, CSSCharacter::Fox, CSSCharacter::Fox, false),
    ];
    let days = daily_schedule(&matches).unwrap();
    let shape: Vec<Vec<i64>> = days.iter().map(|d| d.iter().map(|m| m.datetime).collect()).collect();
    assert_eq!(shape, vec![vec![d0 + 10, d0 + DAY - 1], vec![], vec![], vec![d0 + 3 * DAY + 5, d0 + 3 * DAY]]);
    assert_eq!(days.iter().map(|d| d.len()).sum::<usize>(), matches.len());
    assert_eq!(daily_schedule(&vec![]).unwrap().len(), 0);
}

#[test]
fn daily_schedule_days_before_the_epoch() {
    let matches = vec![game(-1, CSSCharacter::Fox, CSSCharacter::Fox, true), game(0, CSSCharacter::Fox, CSSCharacter::Fox, true)];
    let days = daily_schedule(&matches).unwrap();
    assert_eq!(days.len(), 2);
    assert_eq!(days[0][0].datetime, -1);
    assert_eq!(days[1][0].datetime, 0);
}

#[test]
fn matchup_counts_use_the_most_recent_window() {
    let (fox, marth) = (CSSCharacter::Fox, CSSCharacter::Marth);
    let matches = vec![
        game(1, fox, marth, true),
        game(5, fox, marth, false),
        game(3, fox, marth, true),
        game(5, fox, marth, true),
        game(2, marth, fox, true),
    ];
    let chart = matchup_counts(&matches, 2);
    assert_eq!(chart.len(), CHARACTER_COUNT);
    // The two most recent Fox-Marth matches are the two at time 5: one win.
    assert_eq!(chart[fox.index()][marth.index()], MatchupCount { wins: Some(1), matches: 4 });
    assert_eq!(chart[marth.index()][fox.index()], MatchupCount { wins: Some(1), matches: 1 });
    assert_eq!(chart[fox.index()][fox.index()], MatchupCount { wins: None, matches: 0 });
    for row in &chart {
        for c in row {
            assert!(c.wins.unwrap_or(0) <= c.matches.min(2));
        }
    }
    let chart = matchup_counts(&matches, 3);
    assert_eq!(chart[fox.index()][marth.index()], MatchupCount { wins: Some(2), matches: 4 });
    let chart = matchup_counts(&matches, 0);
    assert_eq!(chart[fox.index()][marth.index()], MatchupCount { wins: None, matches: 4 });
    let total: usize = chart.iter().flat_map(|row| row.iter()).map(|c| c.matches).sum();
    assert_eq!(total, matches.len());
}

#[test]
fn winner_label_names_the_winning_side() {
    assert_eq!(winner_label(&None), "");
    assert_eq!(winner_label(&Some(game(0, CSSCharacter::Fox, CSSCharacter::Fox, true))), "P1");
    assert_eq!(winner_label(&Some(game(0, CSSCharacter::Fox, CSSCharacter::Fox, false))), "P2");
}

#[test]
fn daily_schedule_at_the_edges_of_the_calendar() {
    let far = vec![game(7_000_000_000_000, CSSCharacter::Fox, CSSCharacter::Fox, true)];
    assert_eq!(daily_schedule(&far).unwrap().len(), 1);
    let beyond = vec![game(i64::MAX, CSSCharacter::Fox, CSSCharacter::Fox, true)];
    assert!(daily_schedule(&beyond).is_none());
}

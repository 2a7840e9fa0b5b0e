use slippi_ratings::settings::Players;
use slippi_ratings::text::{chars_eq, chars_of, parse_i32_chars, parse_unsigned_chars, split_on, string_of, u8_decimal};

fn players() -> Players {
    Players { p1_id: "AAAA#1".to_string(), p2_id: "BBBB#2".to_string() }
}

fn chars(s: &str) -> Vec<char> {
    s.chars().collect()
}

#[test]
fn match_player_code_recognises_both_players() {
    let p = players();
    assert!(slippi_ratings::settings::match_player_code(&p, "AAAA#1"));
    assert!(slippi_ratings::settings::match_player_code(&p, "BBBB#2"));
    assert!(!slippi_ratings::settings::match_player_code(&p, "CCCC#3"));
    assert!(!slippi_ratings::settings::match_player_code(&p, ""));
}

#[test]
fn r_presser_gives_player_one_to_the_leader() {
    let p = players();
    assert_eq!(slippi_ratings::settings::r_presser(&p, true), "AAAA#1");
    assert_eq!(slippi_ratings::settings::r_presser(&p, false), "BBBB#2");
    assert!(slippi_ratings::settings::is_player1(&p, slippi_ratings::settings::r_presser(&p, true)));
    assert!(!slippi_ratings::settings::is_player1(&p, slippi_ratings::settings::r_presser(&p, false)));
}

#[test]
fn is_player1_compares_whole_codes() {
    let p = players();
    assert!(slippi_ratings::settings::is_player1(&p, "AAAA#1"));
    assert!(!slippi_ratings::settings::is_player1(&p, "AAAA#"));
    assert!(!slippi_ratings::settings::is_player1(&p, "BBBB#2"));
}

#[test]
fn chars_round_trip_through_strings() {
    let s = "héllo, wörld";
    let cs = chars_of(s);
    assert_eq!(cs, chars(s));
    assert_eq!(string_of(&cs), s);
    assert!(chars_eq(&cs, &chars(s)));
    assert!(!chars_eq(&cs, &chars("hello")));
}

#[test]
fn split_on_behaves_like_str_split() {
    for line in ["a,b,c", "", ",", "a,", ",a", "a,,b", "no separators"] {
        let fields: Vec<String> = split_on(&chars(line), ',').iter().map(|f| string_of(f)).collect();
        let expected: Vec<String> = line.split(',').map(|f| f.to_string()).collect();
        assert_eq!(fields, expected);
        assert_eq!(fields.join(","), line);
    }
}

#[test]
fn unsigned_parsing_follows_str_parse() {
    let cases = ["0", "255", "256", "+7", "-1", "", "+", "12a", "0007", "18446744073709551615", "18446744073709551616"];
    for c in cases {
        assert_eq!(parse_unsigned_chars(&chars(c), 255), c.parse::<u8>().ok().map(u64::from), "{c}");
        assert_eq!(parse_unsigned_chars(&chars(c), u64::MAX), c.parse::<u64>().ok(), "{c}");
    }
}

#[test]
fn signed_parsing_follows_str_parse() {
    let cases = ["0", "-0", "2147483647", "2147483648", "-2147483648", "-2147483649", "+12", "-", "+", "", "--1", "+-1", "9"];
    for c in cases {
        assert_eq!(parse_i32_chars(&chars(c)), c.parse::<i32>().ok(), "{c}");
    }
}

#[test]
fn u8_decimal_matches_to_string() {
    for n in [0u8, 7, 9, 10, 42, 99, 100, 109, 255] {
        assert_eq!(string_of(&u8_decimal(n)), n.to_string());
    }
}

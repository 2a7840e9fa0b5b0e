use slippi_ratings::game::{CSSCharacter, CHARACTER_COUNT, EndMethod, InGameCharacter, Match, PlayerInfo, Stage, STAGE_COUNT};

#[test]
fn stage_codes_round_trip() {
    for n in 0..STAGE_COUNT {
        let stage = Stage::from_code(n).expect("every code below the count is a stage");
        assert_eq!(stage.code(), n);
    }
    assert_eq!(Stage::from_code(STAGE_COUNT), None);
    assert_eq!(Stage::from_code(31), Some(Stage::BattleField));
    assert_eq!(Stage::from_code(32), Some(Stage::FinalDestination));
    assert_eq!(Stage::from_code(3), Some(Stage::PokemonStadium));
    assert_eq!(Stage::from_code(u16::MAX), None);
}

#[test]
fn character_codes_round_trip() {
    for n in 0..CHARACTER_COUNT as u16 {
        let c = CSSCharacter::from_code(n).unwrap();
        assert_eq!(c.code(), n);
        assert_eq!(c.index(), n as usize);
    }
    assert_eq!(CSSCharacter::from_code(27), None);
    assert_eq!(CSSCharacter::from_code(2), Some(CSSCharacter::Fox));
    assert_eq!(CSSCharacter::Empty.index(), 26);
}

#[test]
fn in_game_codes_round_trip() {
    for n in 0..27 {
        assert_eq!(InGameCharacter::from_code(n).unwrap().code(), n);
    }
    assert_eq!(InGameCharacter::from_code(27), None);
    assert_eq!(InGameCharacter::from_code(-1), None);
    assert_eq!(InGameCharacter::from_code(1), Some(InGameCharacter::Fox));
}

#[test]
fn end_method_codes() {
    assert_eq!(EndMethod::from_code(0), Some(EndMethod::Unresolved));
    assert_eq!(EndMethod::from_code(1), Some(EndMethod::Time));
    assert_eq!(EndMethod::from_code(2), Some(EndMethod::Game));
    assert_eq!(EndMethod::from_code(3), Some(EndMethod::Resolved));
    assert_eq!(EndMethod::from_code(7), Some(EndMethod::NoContest));
    for n in [4u8, 5, 6, 8, 255] {
        assert_eq!(EndMethod::from_code(n), None);
    }
    assert_eq!(EndMethod::NoContest.code(), 7);
}

#[test]
fn ice_climbers_are_one_character() {
    assert_eq!(CSSCharacter::from(InGameCharacter::Popo), CSSCharacter::IceClimbers);
    assert_eq!(CSSCharacter::from(InGameCharacter::Nana), CSSCharacter::IceClimbers);
    assert_eq!(CSSCharacter::from(InGameCharacter::Mario), CSSCharacter::Mario);
    assert_eq!(CSSCharacter::from(InGameCharacter::Sheik), CSSCharacter::Sheik);
    for n in 0..27 {
        assert_ne!(CSSCharacter::from(InGameCharacter::from_code(n).unwrap()), CSSCharacter::Empty);
    }
}

#[test]
fn defaults_are_placeholders() {
    let p = PlayerInfo::default();
    assert_eq!(p.code, "");
    assert_eq!(p.port, 0);
    assert_eq!(p.character, CSSCharacter::Empty);
    assert_eq!(p.stocks, 0);
    assert!(!p.won);
    let before = chrono::Utc::now().timestamp();
    let m = Match::default();
    let after = chrono::Utc::now().timestamp();
    assert!(m.ignore);
    assert_eq!(m.frames, 0);
    assert_eq!(m.stage, Stage::Dummy);
    assert_eq!(m.end_method, EndMethod::Unresolved);
    assert_eq!(m.lras_initiator, None);
    assert!(!m.is_online);
    assert!(before <= m.datetime && m.datetime <= after);
}

use vstd::prelude::*;

verus! {

/// The number of character-select-screen characters, `CSSCharacter::Empty` included.
pub const CHARACTER_COUNT: usize = 27;

/// The number of stages.
pub const STAGE_COUNT: u16 = 33;

/// A stage of the game; `code` is the stage id that replays and the CSV export hold.
#[derive(Debug, Clone, Copy, PartialEq, Eq, Structural)]
pub enum Stage {
    Dummy,
    Test,
    FountainOfDreams,
    PokemonStadium,
    PrincessPeachsCastle,
    KongoJungle,
    Brinstar,
    Corneria,
    YoshisStory,
    Onett,
    MuteCity,
    RainbowCruise,
    JungleJapes,
    GreatBay,
    HyruleTemple,
    BrinstarDepths,
    YoshisIsland,
    GreenGreens,
    Fourside,
    MushroomKingdomI,
    MushroomKingdomII,
    Akaneia,
    Venom,
    PokeFloats,
    BigBlue,
    IcicleMountain,
    IceTop,
    FlatZone,
    DreamLand64,
    YoshisIslandN64,
    KongoJungleN64,
    BattleField,
    FinalDestination,
}

impl Stage {
    /// The stage id.
    pub open spec fn code_spec(self) -> u16 {
        match self {
            Stage::Dummy => 0,
            Stage::Test => 1,
            Stage::FountainOfDreams => 2,
            Stage::PokemonStadium => 3,
            Stage::PrincessPeachsCastle => 4,
            Stage::KongoJungle => 5,
            Stage::Brinstar => 6,
            Stage::Corneria => 7,
            Stage::YoshisStory => 8,
            Stage::Onett => 9,
            Stage::MuteCity => 10,
            Stage::RainbowCruise => 11,
            Stage::JungleJapes => 12,
            Stage::GreatBay => 13,
            Stage::HyruleTemple => 14,
            Stage::BrinstarDepths => 15,
            Stage::YoshisIsland => 16,
            Stage::GreenGreens => 17,
            Stage::Fourside => 18,
            Stage::MushroomKingdomI => 19,
            Stage::MushroomKingdomII => 20,
            Stage::Akaneia => 21,
            Stage::Venom => 22,
            Stage::PokeFloats => 23,
            Stage::BigBlue => 24,
            Stage::IcicleMountain => 25,
            Stage::IceTop => 26,
            Stage::FlatZone => 27,
            Stage::DreamLand64 => 28,
            Stage::YoshisIslandN64 => 29,
            Stage::KongoJungleN64 => 30,
            Stage::BattleField => 31,
            Stage::FinalDestination => 32,
        }
    }

    /// The stage id.
    pub fn code(self) -> (res: u16)
        ensures
            res == self.code_spec(),
    {
        match self {
            Stage::Dummy => 0,
            Stage::Test => 1,
            Stage::FountainOfDreams => 2,
            Stage::PokemonStadium => 3,
            Stage::PrincessPeachsCastle => 4,
            Stage::KongoJungle => 5,
            Stage::Brinstar => 6,
            Stage::Corneria => 7,
            Stage::YoshisStory => 8,
            Stage::Onett => 9,
            Stage::MuteCity => 10,
            Stage::RainbowCruise => 11,
            Stage::JungleJapes => 12,
            Stage::GreatBay => 13,
            Stage::HyruleTemple => 14,
            Stage::BrinstarDepths => 15,
            Stage::YoshisIsland => 16,
            Stage::GreenGreens => 17,
            Stage::Fourside => 18,
            Stage::MushroomKingdomI => 19,
            Stage::MushroomKingdomII => 20,
            Stage::Akaneia => 21,
            Stage::Venom => 22,
            Stage::PokeFloats => 23,
            Stage::BigBlue => 24,
            Stage::IcicleMountain => 25,
            Stage::IceTop => 26,
            Stage::FlatZone => 27,
            Stage::DreamLand64 => 28,
            Stage::YoshisIslandN64 => 29,
            Stage::KongoJungleN64 => 30,
            Stage::BattleField => 31,
            Stage::FinalDestination => 32,
        }
    }

    /// The stage with the given id, if there is one.
    pub open spec fn from_code_spec(n: u16) -> Option<Stage> {
        if n == 0 {
            Some(Stage::Dummy)
        } else if n == 1 {
            Some(Stage::Test)
        } else if n == 2 {
            Some(Stage::FountainOfDreams)
        } else if n == 3 {
            Some(Stage::PokemonStadium)
        } else if n == 4 {
            Some(Stage::PrincessPeachsCastle)
        } else if n == 5 {
            Some(Stage::KongoJungle)
        } else if n == 6 {
            Some(Stage::Brinstar)
        } else if n == 7 {
            Some(Stage::Corneria)
        } else if n == 8 {
            Some(Stage::YoshisStory)
        } else if n == 9 {
            Some(Stage::Onett)
        } else if n == 10 {
            Some(Stage::MuteCity)
        } else if n == 11 {
            Some(Stage::RainbowCruise)
        } else if n == 12 {
            Some(Stage::JungleJapes)
        } else if n == 13 {
            Some(Stage::GreatBay)
        } else if n == 14 {
            Some(Stage::HyruleTemple)
        } else if n == 15 {
            Some(Stage::BrinstarDepths)
        } else if n == 16 {
            Some(Stage::YoshisIsland)
        } else if n == 17 {
            Some(Stage::GreenGreens)
        } else if n == 18 {
            Some(Stage::Fourside)
        } else if n == 19 {
            Some(Stage::MushroomKingdomI)
        } else if n == 20 {
            Some(Stage::MushroomKingdomII)
        } else if n == 21 {
            Some(Stage::Akaneia)
        } else if n == 22 {
            Some(Stage::Venom)
        } else if n == 23 {
            Some(Stage::PokeFloats)
        } else if n == 24 {
            Some(Stage::BigBlue)
        } else if n == 25 {
            Some(Stage::IcicleMountain)
        } else if n == 26 {
            Some(Stage::IceTop)
        } else if n == 27 {
            Some(Stage::FlatZone)
        } else if n == 28 {
            Some(Stage::DreamLand64)
        } else if n == 29 {
            Some(Stage::YoshisIslandN64)
        } else if n == 30 {
            Some(Stage::KongoJungleN64)
        } else if n == 31 {
            Some(Stage::BattleField)
        } else if n == 32 {
            Some(Stage::FinalDestination)
        } else {
            None
        }
    }

    /// The stage with the given id, if there is one.
    pub fn from_code(n: u16) -> (res: Option<Stage>)
        ensures
            res == Stage::from_code_spec(n),
    {
        match n {
            0 => Some(Stage::Dummy),
            1 => Some(Stage::Test),
            2 => Some(Stage::FountainOfDreams),
            3 => Some(Stage::PokemonStadium),
            4 => Some(Stage::PrincessPeachsCastle),
            5 => Some(Stage::KongoJungle),
            6 => Some(Stage::Brinstar),
            7 => Some(Stage::Corneria),
            8 => Some(Stage::YoshisStory),
            9 => Some(Stage::Onett),
            10 => Some(Stage::MuteCity),
            11 => Some(Stage::RainbowCruise),
            12 => Some(Stage::JungleJapes),
            13 => Some(Stage::GreatBay),
            14 => Some(Stage::HyruleTemple),
            15 => Some(Stage::BrinstarDepths),
            16 => Some(Stage::YoshisIsland),
            17 => Some(Stage::GreenGreens),
            18 => Some(Stage::Fourside),
            19 => Some(Stage::MushroomKingdomI),
            20 => Some(Stage::MushroomKingdomII),
            21 => Some(Stage::Akaneia),
            22 => Some(Stage::Venom),
            23 => Some(Stage::PokeFloats),
            24 => Some(Stage::BigBlue),
            25 => Some(Stage::IcicleMountain),
            26 => Some(Stage::IceTop),
            27 => Some(Stage::FlatZone),
            28 => Some(Stage::DreamLand64),
            29 => Some(Stage::YoshisIslandN64),
            30 => Some(Stage::KongoJungleN64),
            31 => Some(Stage::BattleField),
            32 => Some(Stage::FinalDestination),
            _ => None,
        }
    }
}

/// A character as picked on the character select screen; Ice Climbers are one character here.
#[derive(Debug, Clone, Copy, PartialEq, Eq, Structural)]
pub enum CSSCharacter {
    CaptainFalcon,
    DonkeyKong,
    Fox,
    GameAndWatch,
    Kirby,
    Bowser,
    Link,
    Luigi,
    Mario,
    Marth,
    Mewtwo,
    Ness,
    Peach,
    Pikachu,
    IceClimbers,
    Jigglypuff,
    Samus,
    Yoshi,
    Zelda,
    Sheik,
    Falco,
    YoungLink,
    DrMario,
    Roy,
    Pichu,
    Ganondorf,
    Empty,
}

impl CSSCharacter {
    /// The character's number on the character select screen (its position in the list).
    pub open spec fn code_spec(self) -> u16 {
        match self {
            CSSCharacter::CaptainFalcon => 0,
            CSSCharacter::DonkeyKong => 1,
            CSSCharacter::Fox => 2,
            CSSCharacter::GameAndWatch => 3,
            CSSCharacter::Kirby => 4,
            CSSCharacter::Bowser => 5,
            CSSCharacter::Link => 6,
            CSSCharacter::Luigi => 7,
            CSSCharacter::Mario => 8,
            CSSCharacter::Marth => 9,
            CSSCharacter::Mewtwo => 10,
            CSSCharacter::Ness => 11,
            CSSCharacter::Peach => 12,
            CSSCharacter::Pikachu => 13,
            CSSCharacter::IceClimbers => 14,
            CSSCharacter::Jigglypuff => 15,
            CSSCharacter::Samus => 16,
            CSSCharacter::Yoshi => 17,
            CSSCharacter::Zelda => 18,
            CSSCharacter::Sheik => 19,
            CSSCharacter::Falco => 20,
            CSSCharacter::YoungLink => 21,
            CSSCharacter::DrMario => 22,
            CSSCharacter::Roy => 23,
            CSSCharacter::Pichu => 24,
            CSSCharacter::Ganondorf => 25,
            CSSCharacter::Empty => 26,
        }
    }

    /// The character's number on the character select screen (its position in the list).
    pub fn code(self) -> (res: u16)
        ensures
            res == self.code_spec(),
    {
        match self {
            CSSCharacter::CaptainFalcon => 0,
            CSSCharacter::DonkeyKong => 1,
            CSSCharacter::Fox => 2,
            CSSCharacter::GameAndWatch => 3,
            CSSCharacter::Kirby => 4,
            CSSCharacter::Bowser => 5,
            CSSCharacter::Link => 6,
            CSSCharacter::Luigi => 7,
            CSSCharacter::Mario => 8,
            CSSCharacter::Marth => 9,
            CSSCharacter::Mewtwo => 10,
            CSSCharacter::Ness => 11,
            CSSCharacter::Peach => 12,
            CSSCharacter::Pikachu => 13,
            CSSCharacter::IceClimbers => 14,
            CSSCharacter::Jigglypuff => 15,
            CSSCharacter::Samus => 16,
            CSSCharacter::Yoshi => 17,
            CSSCharacter::Zelda => 18,
            CSSCharacter::Sheik => 19,
            CSSCharacter::Falco => 20,
            CSSCharacter::YoungLink => 21,
            CSSCharacter::DrMario => 22,
            CSSCharacter::Roy => 23,
            CSSCharacter::Pichu => 24,
            CSSCharacter::Ganondorf => 25,
            CSSCharacter::Empty => 26,
        }
    }

    /// The character with the given number, if there is one.
    pub open spec fn from_code_spec(n: u16) -> Option<CSSCharacter> {
        if n == 0 {
            Some(CSSCharacter::CaptainFalcon)
        } else if n == 1 {
            Some(CSSCharacter::DonkeyKong)
        } else if n == 2 {
            Some(CSSCharacter::Fox)
        } else if n == 3 {
            Some(CSSCharacter::GameAndWatch)
        } else if n == 4 {
            Some(CSSCharacter::Kirby)
        } else if n == 5 {
            Some(CSSCharacter::Bowser)
        } else if n == 6 {
            Some(CSSCharacter::Link)
        } else if n == 7 {
            Some(CSSCharacter::Luigi)
        } else if n == 8 {
            Some(CSSCharacter::Mario)
        } else if n == 9 {
            Some(CSSCharacter::Marth)
        } else if n == 10 {
            Some(CSSCharacter::Mewtwo)
        } else if n == 11 {
            Some(CSSCharacter::Ness)
        } else if n == 12 {
            Some(CSSCharacter::Peach)
        } else if n == 13 {
            Some(CSSCharacter::Pikachu)
        } else if n == 14 {
            Some(CSSCharacter::IceClimbers)
        } else if n == 15 {
            Some(CSSCharacter::Jigglypuff)
        } else if n == 16 {
            Some(CSSCharacter::Samus)
        } else if n == 17 {
            Some(CSSCharacter::Yoshi)
        } else if n == 18 {
            Some(CSSCharacter::Zelda)
        } else if n == 19 {
            Some(CSSCharacter::Sheik)
        } else if n == 20 {
            Some(CSSCharacter::Falco)
        } else if n == 21 {
            Some(CSSCharacter::YoungLink)
        } else if n == 22 {
            Some(CSSCharacter::DrMario)
        } else if n == 23 {
            Some(CSSCharacter::Roy)
        } else if n == 24 {
            Some(CSSCharacter::Pichu)
        } else if n == 25 {
            Some(CSSCharacter::Ganondorf)
        } else if n == 26 {
            Some(CSSCharacter::Empty)
        } else {
            None
        }
    }

    /// The character with the given number, if there is one.
    pub fn from_code(n: u16) -> (res: Option<CSSCharacter>)
        ensures
            res == CSSCharacter::from_code_spec(n),
    {
        match n {
            0 => Some(CSSCharacter::CaptainFalcon),
            1 => Some(CSSCharacter::DonkeyKong),
            2 => Some(CSSCharacter::Fox),
            3 => Some(CSSCharacter::GameAndWatch),
            4 => Some(CSSCharacter::Kirby),
            5 => Some(CSSCharacter::Bowser),
            6 => Some(CSSCharacter::Link),
            7 => Some(CSSCharacter::Luigi),
            8 => Some(CSSCharacter::Mario),
            9 => Some(CSSCharacter::Marth),
            10 => Some(CSSCharacter::Mewtwo),
            11 => Some(CSSCharacter::Ness),
            12 => Some(CSSCharacter::Peach),
            13 => Some(CSSCharacter::Pikachu),
            14 => Some(CSSCharacter::IceClimbers),
            15 => Some(CSSCharacter::Jigglypuff),
            16 => Some(CSSCharacter::Samus),
            17 => Some(CSSCharacter::Yoshi),
            18 => Some(CSSCharacter::Zelda),
            19 => Some(CSSCharacter::Sheik),
            20 => Some(CSSCharacter::Falco),
            21 => Some(CSSCharacter::YoungLink),
            22 => Some(CSSCharacter::DrMario),
            23 => Some(CSSCharacter::Roy),
            24 => Some(CSSCharacter::Pichu),
            25 => Some(CSSCharacter::Ganondorf),
            26 => Some(CSSCharacter::Empty),
            _ => None,
        }
    }
}

/// A character as the game engine numbers it; Popo and Nana are separate here.
#[derive(Debug, Clone, Copy, PartialEq, Eq, Structural)]
pub enum InGameCharacter {
    Mario,
    Fox,
    CaptainFalcon,
    DonkeyKong,
    Kirby,
    Bowser,
    Link,
    Sheik,
    Ness,
    Peach,
    Popo,
    Nana,
    Pikachu,
    Samus,
    Yoshi,
    Jigglypuff,
    Mewtwo,
    Luigi,
    Marth,
    Zelda,
    YoungLink,
    DrMario,
    Falco,
    Pichu,
    GameAndWatch,
    Ganondorf,
    Roy,
}

impl InGameCharacter {
    /// The game engine's number for the character.
    pub open spec fn code_spec(self) -> i32 {
        match self {
            InGameCharacter::Mario => 0,
            InGameCharacter::Fox => 1,
            InGameCharacter::CaptainFalcon => 2,
            InGameCharacter::DonkeyKong => 3,
            InGameCharacter::Kirby => 4,
            InGameCharacter::Bowser => 5,
            InGameCharacter::Link => 6,
            InGameCharacter::Sheik => 7,
            InGameCharacter::Ness => 8,
            InGameCharacter::Peach => 9,
            InGameCharacter::Popo => 10,
            InGameCharacter::Nana => 11,
            InGameCharacter::Pikachu => 12,
            InGameCharacter::Samus => 13,
            InGameCharacter::Yoshi => 14,
            InGameCharacter::Jigglypuff => 15,
            InGameCharacter::Mewtwo => 16,
            InGameCharacter::Luigi => 17,
            InGameCharacter::Marth => 18,
            InGameCharacter::Zelda => 19,
            InGameCharacter::YoungLink => 20,
            InGameCharacter::DrMario => 21,
            InGameCharacter::Falco => 22,
            InGameCharacter::Pichu => 23,
            InGameCharacter::GameAndWatch => 24,
            InGameCharacter::Ganondorf => 25,
            InGameCharacter::Roy => 26,
        }
    }

    /// The game engine's number for the character.
    pub fn code(self) -> (res: i32)
        ensures
            res == self.code_spec(),
    {
        match self {
            InGameCharacter::Mario => 0,
            InGameCharacter::Fox => 1,
            InGameCharacter::CaptainFalcon => 2,
            InGameCharacter::DonkeyKong => 3,
            InGameCharacter::Kirby => 4,
            InGameCharacter::Bowser => 5,
            InGameCharacter::Link => 6,
            InGameCharacter::Sheik => 7,
            InGameCharacter::Ness => 8,
            InGameCharacter::Peach => 9,
            InGameCharacter::Popo => 10,
            InGameCharacter::Nana => 11,
            InGameCharacter::Pikachu => 12,
            InGameCharacter::Samus => 13,
            InGameCharacter::Yoshi => 14,
            InGameCharacter::Jigglypuff => 15,
            InGameCharacter::Mewtwo => 16,
            InGameCharacter::Luigi => 17,
            InGameCharacter::Marth => 18,
            InGameCharacter::Zelda => 19,
            InGameCharacter::YoungLink => 20,
            InGameCharacter::DrMario => 21,
            InGameCharacter::Falco => 22,
            InGameCharacter::Pichu => 23,
            InGameCharacter::GameAndWatch => 24,
            InGameCharacter::Ganondorf => 25,
            InGameCharacter::Roy => 26,
        }
    }

    /// The character the game engine numbers `n`, if there is one.
    pub open spec fn from_code_spec(n: i32) -> Option<InGameCharacter> {
        if n == 0 {
            Some(InGameCharacter::Mario)
        } else if n == 1 {
            Some(InGameCharacter::Fox)
        } else if n == 2 {
            Some(InGameCharacter::CaptainFalcon)
        } else if n == 3 {
            Some(InGameCharacter::DonkeyKong)
        } else if n == 4 {
            Some(InGameCharacter::Kirby)
        } else if n == 5 {
            Some(InGameCharacter::Bowser)
        } else if n == 6 {
            Some(InGameCharacter::Link)
        } else if n == 7 {
            Some(InGameCharacter::Sheik)
        } else if n == 8 {
            Some(InGameCharacter::Ness)
        } else if n == 9 {
            Some(InGameCharacter::Peach)
        } else if n == 10 {
            Some(InGameCharacter::Popo)
        } else if n == 11 {
            Some(InGameCharacter::Nana)
        } else if n == 12 {
            Some(InGameCharacter::Pikachu)
        } else if n == 13 {
            Some(InGameCharacter::Samus)
        } else if n == 14 {
            Some(InGameCharacter::Yoshi)
        } else if n == 15 {
            Some(InGameCharacter::Jigglypuff)
        } else if n == 16 {
            Some(InGameCharacter::Mewtwo)
        } else if n == 17 {
            Some(InGameCharacter::Luigi)
        } else if n == 18 {
            Some(InGameCharacter::Marth)
        } else if n == 19 {
            Some(InGameCharacter::Zelda)
        } else if n == 20 {
            Some(InGameCharacter::YoungLink)
        } else if n == 21 {
            Some(InGameCharacter::DrMario)
        } else if n == 22 {
            Some(InGameCharacter::Falco)
        } else if n == 23 {
            Some(InGameCharacter::Pichu)
        } else if n == 24 {
            Some(InGameCharacter::GameAndWatch)
        } else if n == 25 {
            Some(InGameCharacter::Ganondorf)
        } else if n == 26 {
            Some(InGameCharacter::Roy)
        } else {
            None
        }
    }

    /// The character the game engine numbers `n`, if there is one.
    pub fn from_code(n: i32) -> (res: Option<InGameCharacter>)
        ensures
            res == InGameCharacter::from_code_spec(n),
    {
        match n {
            0 => Some(InGameCharacter::Mario),
            1 => Some(InGameCharacter::Fox),
            2 => Some(InGameCharacter::CaptainFalcon),
            3 => Some(InGameCharacter::DonkeyKong),
            4 => Some(InGameCharacter::Kirby),
            5 => Some(InGameCharacter::Bowser),
            6 => Some(InGameCharacter::Link),
            7 => Some(InGameCharacter::Sheik),
            8 => Some(InGameCharacter::Ness),
            9 => Some(InGameCharacter::Peach),
            10 => Some(InGameCharacter::Popo),
            11 => Some(InGameCharacter::Nana),
            12 => Some(InGameCharacter::Pikachu),
            13 => Some(InGameCharacter::Samus),
            14 => Some(InGameCharacter::Yoshi),
            15 => Some(InGameCharacter::Jigglypuff),
            16 => Some(InGameCharacter::Mewtwo),
            17 => Some(InGameCharacter::Luigi),
            18 => Some(InGameCharacter::Marth),
            19 => Some(InGameCharacter::Zelda),
            20 => Some(InGameCharacter::YoungLink),
            21 => Some(InGameCharacter::DrMario),
            22 => Some(InGameCharacter::Falco),
            23 => Some(InGameCharacter::Pichu),
            24 => Some(InGameCharacter::GameAndWatch),
            25 => Some(InGameCharacter::Ganondorf),
            26 => Some(InGameCharacter::Roy),
            _ => None,
        }
    }
}

/// How a game ended.
#[derive(Debug, Clone, Copy, PartialEq, Eq, Structural)]
pub enum EndMethod {
    Unresolved,
    Time,
    Game,
    Resolved,
    NoContest,
}

impl EndMethod {
    /// The number that replays and the CSV export use for the end method.
    pub open spec fn code_spec(self) -> u8 {
        match self {
            EndMethod::Unresolved => 0,
            EndMethod::Time => 1,
            EndMethod::Game => 2,
            EndMethod::Resolved => 3,
            EndMethod::NoContest => 7,
        }
    }

    /// The number that replays and the CSV export use for the end method.
    pub fn code(self) -> (res: u8)
        ensures
            res == self.code_spec(),
    {
        match self {
            EndMethod::Unresolved => 0,
            EndMethod::Time => 1,
            EndMethod::Game => 2,
            EndMethod::Resolved => 3,
            EndMethod::NoContest => 7,
        }
    }

    /// The end method with the given number, if there is one.
    pub open spec fn from_code_spec(n: u8) -> Option<EndMethod> {
        if n == 0 {
            Some(EndMethod::Unresolved)
        } else if n == 1 {
            Some(EndMethod::Time)
        } else if n == 2 {
            Some(EndMethod::Game)
        } else if n == 3 {
            Some(EndMethod::Resolved)
        } else if n == 7 {
            Some(EndMethod::NoContest)
        } else {
            None
        }
    }

    /// The end method with the given number, if there is one.
    pub fn from_code(n: u8) -> (res: Option<EndMethod>)
        ensures
            res == EndMethod::from_code_spec(n),
    {
        match n {
            0 => Some(EndMethod::Unresolved),
            1 => Some(EndMethod::Time),
            2 => Some(EndMethod::Game),
            3 => Some(EndMethod::Resolved),
            7 => Some(EndMethod::NoContest),
            _ => None,
        }
    }
}

impl CSSCharacter {
    /// The character select screen character of an in-game character: Popo and Nana are
    /// both the Ice Climbers, every other character is the one of the same name.
    pub open spec fn from_in_game_spec(value: InGameCharacter) -> CSSCharacter {
        match value {
            InGameCharacter::Mario => CSSCharacter::Mario,
            InGameCharacter::Fox => CSSCharacter::Fox,
            InGameCharacter::CaptainFalcon => CSSCharacter::CaptainFalcon,
            InGameCharacter::DonkeyKong => CSSCharacter::DonkeyKong,
            InGameCharacter::Kirby => CSSCharacter::Kirby,
            InGameCharacter::Bowser => CSSCharacter::Bowser,
            InGameCharacter::Link => CSSCharacter::Link,
            InGameCharacter::Sheik => CSSCharacter::Sheik,
            InGameCharacter::Ness => CSSCharacter::Ness,
            InGameCharacter::Peach => CSSCharacter::Peach,
            InGameCharacter::Popo => CSSCharacter::IceClimbers,
            InGameCharacter::Nana => CSSCharacter::IceClimbers,
            InGameCharacter::Pikachu => CSSCharacter::Pikachu,
            InGameCharacter::Samus => CSSCharacter::Samus,
            InGameCharacter::Yoshi => CSSCharacter::Yoshi,
            InGameCharacter::Jigglypuff => CSSCharacter::Jigglypuff,
            InGameCharacter::Mewtwo => CSSCharacter::Mewtwo,
            InGameCharacter::Luigi => CSSCharacter::Luigi,
            InGameCharacter::Marth => CSSCharacter::Marth,
            InGameCharacter::Zelda => CSSCharacter::Zelda,
            InGameCharacter::YoungLink => CSSCharacter::YoungLink,
            InGameCharacter::DrMario => CSSCharacter::DrMario,
            InGameCharacter::Falco => CSSCharacter::Falco,
            InGameCharacter::Pichu => CSSCharacter::Pichu,
            InGameCharacter::GameAndWatch => CSSCharacter::GameAndWatch,
            InGameCharacter::Ganondorf => CSSCharacter::Ganondorf,
            InGameCharacter::Roy => CSSCharacter::Roy,
        }
    }

    /// The character's row and column in per-character tables.
    pub open spec fn index_spec(self) -> usize {
        self.code_spec() as usize
    }

    /// The character's row and column in per-character tables.
    pub fn index(self) -> (res: usize)
        ensures
            res == self.index_spec(),
            res < CHARACTER_COUNT,
    {
        self.code() as usize
    }
}

impl From<InGameCharacter> for CSSCharacter {
    fn from(value: InGameCharacter) -> (res: CSSCharacter) {
        match value {
            InGameCharacter::Mario => CSSCharacter::Mario,
            InGameCharacter::Fox => CSSCharacter::Fox,
            InGameCharacter::CaptainFalcon => CSSCharacter::CaptainFalcon,
            InGameCharacter::DonkeyKong => CSSCharacter::DonkeyKong,
            InGameCharacter::Kirby => CSSCharacter::Kirby,
            InGameCharacter::Bowser => CSSCharacter::Bowser,
            InGameCharacter::Link => CSSCharacter::Link,
            InGameCharacter::Sheik => CSSCharacter::Sheik,
            InGameCharacter::Ness => CSSCharacter::Ness,
            InGameCharacter::Peach => CSSCharacter::Peach,
            InGameCharacter::Popo => CSSCharacter::IceClimbers,
            InGameCharacter::Nana => CSSCharacter::IceClimbers,
            InGameCharacter::Pikachu => CSSCharacter::Pikachu,
            InGameCharacter::Samus => CSSCharacter::Samus,
            InGameCharacter::Yoshi => CSSCharacter::Yoshi,
            InGameCharacter::Jigglypuff => CSSCharacter::Jigglypuff,
            InGameCharacter::Mewtwo => CSSCharacter::Mewtwo,
            InGameCharacter::Luigi => CSSCharacter::Luigi,
            InGameCharacter::Marth => CSSCharacter::Marth,
            InGameCharacter::Zelda => CSSCharacter::Zelda,
            InGameCharacter::YoungLink => CSSCharacter::YoungLink,
            InGameCharacter::DrMario => CSSCharacter::DrMario,
            InGameCharacter::Falco => CSSCharacter::Falco,
            InGameCharacter::Pichu => CSSCharacter::Pichu,
            InGameCharacter::GameAndWatch => CSSCharacter::GameAndWatch,
            InGameCharacter::Ganondorf => CSSCharacter::Ganondorf,
            InGameCharacter::Roy => CSSCharacter::Roy,
        }
    }
}

impl vstd::std_specs::convert::FromSpecImpl<InGameCharacter> for CSSCharacter {
    open spec fn obeys_from_spec() -> bool {
        true
    }

    open spec fn from_spec(value: InGameCharacter) -> CSSCharacter {
        CSSCharacter::from_in_game_spec(value)
    }
}


/// Reading back the code of a Stage gives the same value, and a code that is read
/// as a value is that value's code.
pub proof fn lemma_stage_code_roundtrip(value: Stage, n: u16)
    ensures
        Stage::from_code_spec(value.code_spec()) == Some(value),
        Stage::from_code_spec(n) matches Some(v) ==> v.code_spec() == n,
        (Stage::from_code_spec(n) is Some) <==> (0 <= n < STAGE_COUNT as int),
{
}

/// Reading back the code of a CSSCharacter gives the same value, and a code that is read
/// as a value is that value's code.
pub proof fn lemma_csscharacter_code_roundtrip(value: CSSCharacter, n: u16)
    ensures
        CSSCharacter::from_code_spec(value.code_spec()) == Some(value),
        CSSCharacter::from_code_spec(n) matches Some(v) ==> v.code_spec() == n,
        (CSSCharacter::from_code_spec(n) is Some) <==> (0 <= n < CHARACTER_COUNT as int),
{
}

/// Reading back the code of a InGameCharacter gives the same value, and a code that is read
/// as a value is that value's code.
pub proof fn lemma_ingamecharacter_code_roundtrip(value: InGameCharacter, n: i32)
    ensures
        InGameCharacter::from_code_spec(value.code_spec()) == Some(value),
        InGameCharacter::from_code_spec(n) matches Some(v) ==> v.code_spec() == n,
        (InGameCharacter::from_code_spec(n) is Some) <==> (0 <= n < 27),
{
}

/// Reading back the code of a EndMethod gives the same value, and a code that is read
/// as a value is that value's code.
pub proof fn lemma_endmethod_code_roundtrip(value: EndMethod, n: u8)
    ensures
        EndMethod::from_code_spec(value.code_spec()) == Some(value),
        EndMethod::from_code_spec(n) matches Some(v) ==> v.code_spec() == n,
{
}

/// The character select screen, in order: each character's number is its position here.
pub open spec fn css_roster() -> Seq<CSSCharacter> {
    seq![CSSCharacter::CaptainFalcon, CSSCharacter::DonkeyKong, CSSCharacter::Fox, CSSCharacter::GameAndWatch, CSSCharacter::Kirby, CSSCharacter::Bowser, CSSCharacter::Link, CSSCharacter::Luigi, CSSCharacter::Mario, CSSCharacter::Marth, CSSCharacter::Mewtwo, CSSCharacter::Ness, CSSCharacter::Peach, CSSCharacter::Pikachu, CSSCharacter::IceClimbers, CSSCharacter::Jigglypuff, CSSCharacter::Samus, CSSCharacter::Yoshi, CSSCharacter::Zelda, CSSCharacter::Sheik, CSSCharacter::Falco, CSSCharacter::YoungLink, CSSCharacter::DrMario, CSSCharacter::Roy, CSSCharacter::Pichu, CSSCharacter::Ganondorf, CSSCharacter::Empty]
}

/// The game engine's list of characters, in order: each character's number is its position
/// here.
pub open spec fn in_game_roster() -> Seq<InGameCharacter> {
    seq![InGameCharacter::Mario, InGameCharacter::Fox, InGameCharacter::CaptainFalcon, InGameCharacter::DonkeyKong, InGameCharacter::Kirby, InGameCharacter::Bowser, InGameCharacter::Link, InGameCharacter::Sheik, InGameCharacter::Ness, InGameCharacter::Peach, InGameCharacter::Popo, InGameCharacter::Nana, InGameCharacter::Pikachu, InGameCharacter::Samus, InGameCharacter::Yoshi, InGameCharacter::Jigglypuff, InGameCharacter::Mewtwo, InGameCharacter::Luigi, InGameCharacter::Marth, InGameCharacter::Zelda, InGameCharacter::YoungLink, InGameCharacter::DrMario, InGameCharacter::Falco, InGameCharacter::Pichu, InGameCharacter::GameAndWatch, InGameCharacter::Ganondorf, InGameCharacter::Roy]
}

impl CSSCharacter {
    /// The character's name.
    pub open spec fn name(self) -> Seq<char> {
        match self {
            CSSCharacter::CaptainFalcon => "CaptainFalcon"@,
            CSSCharacter::DonkeyKong => "DonkeyKong"@,
            CSSCharacter::Fox => "Fox"@,
            CSSCharacter::GameAndWatch => "GameAndWatch"@,
            CSSCharacter::Kirby => "Kirby"@,
            CSSCharacter::Bowser => "Bowser"@,
            CSSCharacter::Link => "Link"@,
            CSSCharacter::Luigi => "Luigi"@,
            CSSCharacter::Mario => "Mario"@,
            CSSCharacter::Marth => "Marth"@,
            CSSCharacter::Mewtwo => "Mewtwo"@,
            CSSCharacter::Ness => "Ness"@,
            CSSCharacter::Peach => "Peach"@,
            CSSCharacter::Pikachu => "Pikachu"@,
            CSSCharacter::IceClimbers => "IceClimbers"@,
            CSSCharacter::Jigglypuff => "Jigglypuff"@,
            CSSCharacter::Samus => "Samus"@,
            CSSCharacter::Yoshi => "Yoshi"@,
            CSSCharacter::Zelda => "Zelda"@,
            CSSCharacter::Sheik => "Sheik"@,
            CSSCharacter::Falco => "Falco"@,
            CSSCharacter::YoungLink => "YoungLink"@,
            CSSCharacter::DrMario => "DrMario"@,
            CSSCharacter::Roy => "Roy"@,
            CSSCharacter::Pichu => "Pichu"@,
            CSSCharacter::Ganondorf => "Ganondorf"@,
            CSSCharacter::Empty => "Empty"@,
        }
    }
}

impl InGameCharacter {
    /// The character's name.
    pub open spec fn name(self) -> Seq<char> {
        match self {
            InGameCharacter::Mario => "Mario"@,
            InGameCharacter::Fox => "Fox"@,
            InGameCharacter::CaptainFalcon => "CaptainFalcon"@,
            InGameCharacter::DonkeyKong => "DonkeyKong"@,
            InGameCharacter::Kirby => "Kirby"@,
            InGameCharacter::Bowser => "Bowser"@,
            InGameCharacter::Link => "Link"@,
            InGameCharacter::Sheik => "Sheik"@,
            InGameCharacter::Ness => "Ness"@,
            InGameCharacter::Peach => "Peach"@,
            InGameCharacter::Popo => "Popo"@,
            InGameCharacter::Nana => "Nana"@,
            InGameCharacter::Pikachu => "Pikachu"@,
            InGameCharacter::Samus => "Samus"@,
            InGameCharacter::Yoshi => "Yoshi"@,
            InGameCharacter::Jigglypuff => "Jigglypuff"@,
            InGameCharacter::Mewtwo => "Mewtwo"@,
            InGameCharacter::Luigi => "Luigi"@,
            InGameCharacter::Marth => "Marth"@,
            InGameCharacter::Zelda => "Zelda"@,
            InGameCharacter::YoungLink => "YoungLink"@,
            InGameCharacter::DrMario => "DrMario"@,
            InGameCharacter::Falco => "Falco"@,
            InGameCharacter::Pichu => "Pichu"@,
            InGameCharacter::GameAndWatch => "GameAndWatch"@,
            InGameCharacter::Ganondorf => "Ganondorf"@,
            InGameCharacter::Roy => "Roy"@,
        }
    }
}

/// A character-select character's number is its position on the character select screen,
/// and a number reads as the character at that position, or as none past the end.
pub proof fn lemma_css_code_is_position(c: CSSCharacter, n: u16)
    ensures
        css_roster().len() == CHARACTER_COUNT,
        css_roster()[c.code_spec() as int] == c,
        (n as int) < css_roster().len() ==> CSSCharacter::from_code_spec(n) == Some(css_roster()[n as int]),
        (n as int) >= css_roster().len() ==> CSSCharacter::from_code_spec(n) is None,
{
}

/// An in-game character's number is its position in the game engine's list, and a number
/// reads as the character at that position, or as none past the end.
pub proof fn lemma_in_game_code_is_position(c: InGameCharacter, n: i32)
    ensures
        in_game_roster().len() == 27,
        in_game_roster()[c.code_spec() as int] == c,
        0 <= n < in_game_roster().len() ==> InGameCharacter::from_code_spec(n) == Some(in_game_roster()[n as int]),
        (n < 0 || n >= in_game_roster().len()) ==> InGameCharacter::from_code_spec(n) is None,
{
}

/// Converting an in-game character gives the character-select character of the same name;
/// Popo and Nana, the two halves of the Ice Climbers, both give the Ice Climbers.
pub proof fn lemma_from_in_game_keeps_name(c: InGameCharacter)
    ensures
        c != InGameCharacter::Popo && c != InGameCharacter::Nana ==> CSSCharacter::from_in_game_spec(c).name() == c.name(),
        (c == InGameCharacter::Popo || c == InGameCharacter::Nana) ==> CSSCharacter::from_in_game_spec(c) == CSSCharacter::IceClimbers,
{
}

/// A player's side of a match.
#[derive(Debug)]
pub struct PlayerInfo {
    pub code: String,
    pub port: u8,
    pub character: CSSCharacter,
    pub stocks: u8,
    pub won: bool,
}

/// One game between the two tracked players.
#[derive(Debug)]
pub struct Match {
    pub hash: String,
    /// Start of the game, in seconds since the Unix epoch (UTC).
    pub datetime: i64,
    pub frames: usize,
    pub stage: Stage,
    /// Player 1's side first, player 2's second.
    pub players: (PlayerInfo, PlayerInfo),
    pub is_online: bool,
    pub end_method: EndMethod,
    pub lras_initiator: Option<u8>,
    /// Set on the placeholder stored for a replay that could not be read.
    pub ignore: bool,
}

/// What a `PlayerInfo` holds, with its code as characters.
pub struct PlayerInfoView {
    pub code: Seq<char>,
    pub port: u8,
    pub character: CSSCharacter,
    pub stocks: u8,
    pub won: bool,
}

/// What a `Match` holds, with its texts as characters.
pub struct MatchView {
    pub hash: Seq<char>,
    pub datetime: i64,
    pub frames: usize,
    pub stage: Stage,
    pub players: (PlayerInfoView, PlayerInfoView),
    pub is_online: bool,
    pub end_method: EndMethod,
    pub lras_initiator: Option<u8>,
    pub ignore: bool,
}

impl View for PlayerInfo {
    type V = PlayerInfoView;

    open spec fn view(&self) -> PlayerInfoView {
        PlayerInfoView {
            code: self.code@,
            port: self.port,
            character: self.character,
            stocks: self.stocks,
            won: self.won,
        }
    }
}

impl View for Match {
    type V = MatchView;

    open spec fn view(&self) -> MatchView {
        MatchView {
            hash: self.hash@,
            datetime: self.datetime,
            frames: self.frames,
            stage: self.stage,
            players: (self.players.0@, self.players.1@),
            is_online: self.is_online,
            end_method: self.end_method,
            lras_initiator: self.lras_initiator,
            ignore: self.ignore,
        }
    }
}

impl Clone for PlayerInfo {
    fn clone(&self) -> (res: Self)
        ensures
            res == *self,
    {
        PlayerInfo {
            code: self.code.clone(),
            port: self.port,
            character: self.character,
            stocks: self.stocks,
            won: self.won,
        }
    }
}

impl Clone for Match {
    fn clone(&self) -> (res: Self)
        ensures
            res == *self,
    {
        Match {
            hash: self.hash.clone(),
            datetime: self.datetime,
            frames: self.frames,
            stage: self.stage,
            players: (self.players.0.clone(), self.players.1.clone()),
            is_online: self.is_online,
            end_method: self.end_method,
            lras_initiator: self.lras_initiator,
            ignore: self.ignore,
        }
    }
}

impl Default for PlayerInfo {
    fn default() -> (res: Self)
        ensures
            res@.is_default(),
    {
        PlayerInfo {
            code: String::new(),
            port: 0,
            character: CSSCharacter::Empty,
            stocks: 0,
            won: false,
        }
    }
}

impl PlayerInfoView {
    /// The empty side of a placeholder match.
    pub open spec fn is_default(self) -> bool {
        &&& self.code == Seq::<char>::empty()
        &&& self.port == 0
        &&& self.character == CSSCharacter::Empty
        &&& self.stocks == 0
        &&& !self.won
    }
}

impl MatchView {
    /// The placeholder stored for a replay that could not be read; only its start time,
    /// which is the time it was made, is left open.
    pub open spec fn is_placeholder(self) -> bool {
        &&& self.hash == Seq::<char>::empty()
        &&& self.frames == 0
        &&& self.stage == Stage::Dummy
        &&& self.players.0.is_default()
        &&& self.players.1.is_default()
        &&& !self.is_online
        &&& self.end_method == EndMethod::Unresolved
        &&& self.lras_initiator is None
        &&& self.ignore
    }
}

impl Default for Match {
    fn default() -> (res: Self)
        ensures
            res@.is_placeholder(),
    {
        Match {
            hash: String::new(),
            datetime: crate::time::now_timestamp(),
            frames: 0,
            stage: Stage::Dummy,
            players: (PlayerInfo::default(), PlayerInfo::default()),
            is_online: false,
            end_method: EndMethod::Unresolved,
            lras_initiator: None,
            ignore: true,
        }
    }
}

} // verus!

use vstd::prelude::*;

use crate::game::{CSSCharacter, EndMethod, InGameCharacter, Match, MatchView, PlayerInfo, PlayerInfoView, Stage};
use crate::settings::{Players, is_player1, match_player_code, r_presser};
use crate::text::{chars_eq, chars_of, decimal, parse_i32_chars, parse_signed, u8_decimal};
use crate::time::{parse_utc_timestamp, utc_timestamp_of};

verus! {

/// One port's state on one frame: the physical buttons held before the frame and the
/// stocks left after it.
#[derive(Debug)]
pub struct PortFrame {
    pub buttons: u16,
    pub stocks: u8,
}

/// How a player is controlled.
#[derive(Debug, Clone, Copy, PartialEq, Eq, Structural)]
pub enum PlayerKind {
    Human,
    Cpu,
    Demo,
}

/// A player of the game-start block.
#[derive(Debug)]
pub struct ReplayPlayer {
    pub kind: PlayerKind,
    pub port: u8,
    /// The netplay code, where the replay records netplay information.
    pub netplay_code: Option<String>,
}

/// One entry of a player's character-usage table in the replay metadata.
#[derive(Debug)]
pub struct CharacterCount {
    /// The in-game character number, as the metadata writes it.
    pub character: String,
    /// The count, where the metadata holds an integer.
    pub count: Option<i64>,
}

/// One entry of the metadata's `players` table, keyed by port number.
#[derive(Debug)]
pub struct MetadataPlayer {
    pub key: String,
    /// The `characters` table of the entry, where it is a table.
    pub characters: Option<Vec<CharacterCount>>,
}

/// The metadata block of a replay.
#[derive(Debug)]
pub struct ReplayMetadata {
    /// `startAt`, where it is a string.
    pub start_at: Option<String>,
    /// `players`, where it is a table, in the order the replay lists it.
    pub players: Option<Vec<MetadataPlayer>>,
}

/// The game-end block of a replay.
#[derive(Debug)]
pub struct ReplayEnd {
    pub method: EndMethod,
    pub lras_initiator: Option<Option<u8>>,
    /// Placements, in the order of the game-start players.
    pub placements: Option<Vec<u8>>,
}

/// What the match logic reads of a decoded replay.
#[derive(Debug)]
pub struct ReplayData {
    pub metadata: Option<ReplayMetadata>,
    pub hash: Option<String>,
    /// The netplay match id, where the replay has a match block.
    pub match_id: Option<String>,
    pub end: Option<ReplayEnd>,
    /// Every frame, each with the ports in the order the frame lists them.
    pub frames: Vec<Vec<PortFrame>>,
    pub players: Vec<ReplayPlayer>,
    pub stage: u16,
}

/// Why a replay gives no match.
#[derive(Debug, Clone, Copy, PartialEq, Eq, Structural)]
pub enum ReplayError {
    /// The file could not be read or decoded.
    Unreadable,
    MissingMetadata,
    MissingHash,
    MissingStartAt,
    InvalidStartAt,
    MissingEnd,
    NoFrames,
    NonHumanPlayer,
    MissingNetplay,
    UnrecognizedPlayer,
    MissingCharacterMetadata,
    NoCharacters,
    InvalidCharacterNumber,
    MissingPortData,
    MissingPlacements,
    MissingPlacement,
    InvalidCharacter,
    NotTwoPlayers,
    InvalidStage,
}

/// Whether R is among the physical buttons `buttons` (bit 5).
pub open spec fn r_pressed(buttons: u16) -> bool {
    (buttons >> 5u16) & 1u16 == 1u16
}

/// On how many of `frames` the port at position `port` holds R.
pub open spec fn r_press_count(frames: Seq<Vec<PortFrame>>, port: int) -> nat
    decreases frames.len(),
{
    if frames.len() == 0 {
        0
    } else {
        r_press_count(frames.drop_last(), port) + if 0 <= port < frames.last()@.len()
            && r_pressed(frames.last()@[port].buttons) {
            1nat
        } else {
            0nat
        }
    }
}

/// No frame holds more than the two ports that are counted.
pub open spec fn at_most_two_ports(frames: Seq<Vec<PortFrame>>) -> bool {
    forall|f: int| 0 <= f < frames.len() ==> #[trigger] frames[f]@.len() <= 2
}

/// The player position that pressed R the most; the later one on a tie, as
/// `Iterator::max_by_key` picks.
pub open spec fn r_press_leader(frames: Seq<Vec<PortFrame>>) -> int {
    if r_press_count(frames, 1) >= r_press_count(frames, 0) {
        1
    } else {
        0
    }
}

proof fn lemma_r_press_count_bound(frames: Seq<Vec<PortFrame>>, port: int)
    ensures
        r_press_count(frames, port) <= frames.len(),
    decreases frames.len(),
{
    if frames.len() > 0 {
        lemma_r_press_count_bound(frames.drop_last(), port);
    }
}

/// Counts, for each of the two player positions, the frames on which R is held.
pub fn count_r_presses(frames: &Vec<Vec<PortFrame>>) -> (res: Result<Vec<i32>, ReplayError>)
    requires
        at_most_two_ports(frames@),
        frames@.len() <= i32::MAX,
    ensures
        frames@.len() == 0 <==> res is Err,
        res matches Err(e) ==> e == ReplayError::NoFrames,
        res matches Ok(counts) ==> {
            &&& counts@.len() == 2
            &&& counts@[0] == r_press_count(frames@, 0)
            &&& counts@[1] == r_press_count(frames@, 1)
        },
{
    if frames.len() == 0 {
        return Err(ReplayError::NoFrames);
    }
    let mut c0: i32 = 0;
    let mut c1: i32 = 0;
    let mut f: usize = 0;
    while f < frames.len()
        invariant
            f <= frames@.len(),
            frames@.len() <= i32::MAX,
            at_most_two_ports(frames@),
            c0 == r_press_count(frames@.take(f as int), 0),
            c1 == r_press_count(frames@.take(f as int), 1),
        decreases frames@.len() - f,
    {
        proof {
            lemma_r_press_count_bound(frames@.take(f as int), 0);
            lemma_r_press_count_bound(frames@.take(f as int), 1);
            assert(frames@.take(f + 1).drop_last() =~= frames@.take(f as int));
        }
        let ports = &frames[f];
        assert(ports@.len() <= 2);
        let mut p: usize = 0;
        while p < ports.len()
            invariant
                p <= ports@.len() <= 2,
                f < frames@.len() <= i32::MAX,
                ports == frames@[f as int],
                c0 == r_press_count(frames@.take(f as int), 0) + if p > 0 && r_pressed(ports@[0].buttons) { 1int } else { 0 },
                c1 == r_press_count(frames@.take(f as int), 1) + if p > 1 && r_pressed(ports@[1].buttons) { 1int } else { 0 },
                r_press_count(frames@.take(f as int), 0) <= f,
                r_press_count(frames@.take(f as int), 1) <= f,
            decreases ports@.len() - p,
        {
            let b = ports[p].buttons;
            let pressed = (b >> 5u16) & 1u16;
            assert(pressed <= 1) by (bit_vector)
                requires pressed == (b >> 5u16) & 1u16;
            if p == 0 {
                c0 = c0 + pressed as i32;
            } else {
                c1 = c1 + pressed as i32;
            }
            p = p + 1;
        }
        f = f + 1;
    }
    assert(frames@.take(f as int) =~= frames@);
    let mut counts: Vec<i32> = Vec::new();
    counts.push(c0);
    counts.push(c1);
    Ok(counts)
}

/// The weight by which characters are compared: the count, or 0 where there is none.
pub open spec fn character_weight(c: CharacterCount) -> int {
    match c.count {
        Some(v) => v as int,
        None => 0,
    }
}

/// The position of the most used character, the later one on a tie, as
/// `Iterator::max_by_key` picks.
pub open spec fn most_used_position(cs: Seq<CharacterCount>) -> int
    decreases cs.len(),
{
    if cs.len() <= 1 {
        0
    } else {
        let k = most_used_position(cs.drop_last());
        if character_weight(cs.last()) >= character_weight(cs[k]) {
            cs.len() - 1
        } else {
            k
        }
    }
}

/// The most used character is used at least as much as every other one, and strictly
/// more than every one listed after it.
pub proof fn lemma_most_used_position(cs: Seq<CharacterCount>)
    requires
        cs.len() > 0,
    ensures
        0 <= most_used_position(cs) < cs.len(),
        forall|j: int| 0 <= j < cs.len() ==> character_weight(#[trigger] cs[j]) <= character_weight(cs[most_used_position(cs)]),
        forall|j: int| most_used_position(cs) < j < cs.len() ==> character_weight(#[trigger] cs[j]) < character_weight(cs[most_used_position(cs)]),
    decreases cs.len(),
{
    if cs.len() > 1 {
        let front = cs.drop_last();
        lemma_most_used_position(front);
        let k = most_used_position(front);
        assert(cs[k] == front[k]);
        assert forall|j: int| 0 <= j < cs.len() implies character_weight(#[trigger] cs[j]) <= character_weight(cs[most_used_position(cs)]) by {
            if j < front.len() {
                assert(cs[j] == front[j]);
            }
        }
        assert forall|j: int| most_used_position(cs) < j < cs.len() implies character_weight(#[trigger] cs[j]) < character_weight(cs[most_used_position(cs)]) by {
            if j < front.len() {
                assert(cs[j] == front[j]);
            }
        }
    }
}

/// The first entry of `mp` with the given key, as a map lookup finds it.
pub open spec fn find_key(mp: Seq<MetadataPlayer>, key: Seq<char>) -> Option<int>
    decreases mp.len(),
{
    if mp.len() == 0 {
        None
    } else {
        match find_key(mp.drop_last(), key) {
            Some(i) => Some(i),
            None => if mp.last().key@ == key { Some(mp.len() - 1) } else { None },
        }
    }
}

/// The character-usage table that the metadata gives for the port numbered `port`.
pub open spec fn characters_of_port(data: ReplayData, port: u8) -> Option<Seq<CharacterCount>> {
    match data.metadata {
        Some(md) => match md.players {
            Some(mp) => match find_key(mp@, decimal(port as nat)) {
                Some(i) => match mp@[i].characters {
                    Some(cs) => Some(cs@),
                    None => None,
                },
                None => None,
            },
            None => None,
        },
        None => None,
    }
}

/// The in-game character number of the player at `port`: the most used entry of the
/// port's character-usage table, read as an `i32`.
pub open spec fn character_number(data: ReplayData, port: u8) -> Result<int, ReplayError> {
    match characters_of_port(data, port) {
        None => Err(ReplayError::MissingCharacterMetadata),
        Some(cs) => if cs.len() == 0 {
            Err(ReplayError::NoCharacters)
        } else {
            match parse_signed(cs[most_used_position(cs)].character@, i32::MIN as int, i32::MAX as int) {
                Some(v) => Ok(v),
                None => Err(ReplayError::InvalidCharacterNumber),
            }
        },
    }
}

/// Whether the game was played online: it has a match block with a non-empty id.
pub open spec fn is_online_spec(data: ReplayData) -> bool {
    match data.match_id {
        Some(id) => id@.len() > 0,
        None => false,
    }
}

/// The side of the match of the player at position `i` of the game-start block, or the
/// first reason there is none. Online, the player's netplay code must be one of the two
/// tracked codes; offline, the player who pressed R the most (`leader`) is given player
/// 1's code and the other player 2's.
pub open spec fn player_result(data: ReplayData, cfg: Players, i: int, leader: int, online: bool) -> Result<PlayerInfoView, ReplayError> {
    let player = data.players@[i];
    if player.kind != PlayerKind::Human {
        Err(ReplayError::NonHumanPlayer)
    } else if online && player.netplay_code is None {
        Err(ReplayError::MissingNetplay)
    } else if online && !(player.netplay_code->0@ == cfg.p1_id@ || player.netplay_code->0@ == cfg.p2_id@) {
        Err(ReplayError::UnrecognizedPlayer)
    } else {
        let code = if online {
            player.netplay_code->0@
        } else if i == leader {
            cfg.p1_id@
        } else {
            cfg.p2_id@
        };
        match character_number(data, player.port) {
            Err(e) => Err(e),
            Ok(number) => {
                let last = data.frames@.last()@;
                if i >= last.len() {
                    Err(ReplayError::MissingPortData)
                } else if data.end->0.placements is None {
                    Err(ReplayError::MissingPlacements)
                } else if i >= data.end->0.placements->0@.len() {
                    Err(ReplayError::MissingPlacement)
                } else {
                    match InGameCharacter::from_code_spec(number as i32) {
                        None => Err(ReplayError::InvalidCharacter),
                        Some(c) => Ok(PlayerInfoView {
                            code,
                            port: player.port,
                            character: CSSCharacter::from_in_game_spec(c),
                            stocks: last[i].stocks,
                            won: data.end->0.placements->0@[i] == 0,
                        }),
                    }
                }
            },
        }
    }
}

/// The sides of the first `n` players, or the first reason one of them has none.
pub open spec fn collect_players(data: ReplayData, cfg: Players, leader: int, online: bool, n: nat) -> Result<Seq<PlayerInfoView>, ReplayError>
    decreases n,
{
    if n == 0 {
        Ok(Seq::empty())
    } else {
        match collect_players(data, cfg, leader, online, (n - 1) as nat) {
            Err(e) => Err(e),
            Ok(ps) => match player_result(data, cfg, n - 1, leader, online) {
                Err(e) => Err(e),
                Ok(p) => Ok(ps.push(p)),
            },
        }
    }
}

/// The start time as chrono reads the metadata's `startAt`.
pub open spec fn replay_start(data: ReplayData) -> Option<i64> {
    match data.metadata {
        Some(md) => match md.start_at {
            Some(s) => utc_timestamp_of(s@),
            None => None,
        },
        None => None,
    }
}

/// Whether turning `data` into a match, `start` being what its `startAt` reads as, gets as
/// far as counting the R presses: the metadata, the hash, `startAt`, a start time and the
/// game end are all there.
pub open spec fn reaches_press_count(data: ReplayData, start: Option<i64>) -> bool {
    &&& data.metadata is Some
    &&& data.hash is Some
    &&& data.metadata->0.start_at is Some
    &&& start is Some
    &&& data.end is Some
}

/// Frames whose R presses can be counted: at most the two counted ports on each frame,
/// and few enough frames for an `i32` count.
pub open spec fn countable_frames(data: ReplayData) -> bool {
    at_most_two_ports(data.frames@) && data.frames@.len() <= i32::MAX
}

/// The match a replay records, or the first reason it records none.
pub open spec fn parse_replay_spec(data: ReplayData, cfg: Players) -> Result<MatchView, ReplayError> {
    replay_match_spec(data, cfg, replay_start(data))
}

/// The match a replay records, `start` being what its `startAt` reads as, or the first
/// reason it records none. The checks come in this order: metadata, hash, start time,
/// game end, frames, then each player in turn, then that there are two players, then the
/// stage. The player whose code is player 1's comes first.
pub open spec fn replay_match_spec(data: ReplayData, cfg: Players, start: Option<i64>) -> Result<MatchView, ReplayError> {
    if data.metadata is None {
        Err(ReplayError::MissingMetadata)
    } else if data.hash is None {
        Err(ReplayError::MissingHash)
    } else if data.metadata->0.start_at is None {
        Err(ReplayError::MissingStartAt)
    } else if start is None {
        Err(ReplayError::InvalidStartAt)
    } else if data.end is None {
        Err(ReplayError::MissingEnd)
    } else if data.frames@.len() == 0 {
        Err(ReplayError::NoFrames)
    } else {
        let online = is_online_spec(data);
        match collect_players(data, cfg, r_press_leader(data.frames@), online, data.players@.len()) {
            Err(e) => Err(e),
            Ok(ps) => if ps.len() != 2 {
                Err(ReplayError::NotTwoPlayers)
            } else {
                match Stage::from_code_spec(data.stage) {
                    None => Err(ReplayError::InvalidStage),
                    Some(stage) => {
                        let end = data.end->0;
                        Ok(MatchView {
                            hash: data.hash->0@,
                            datetime: start->0,
                            frames: data.frames@.len() as usize,
                            stage,
                            players: if ps[0].code == cfg.p1_id@ { (ps[0], ps[1]) } else { (ps[1], ps[0]) },
                            is_online: online,
                            end_method: end.method,
                            lras_initiator: match end.lras_initiator {
                                Some(Some(port)) => Some(port),
                                _ => None,
                            },
                            ignore: false,
                        })
                    },
                }
            },
        }
    }
}

fn copy_string(s: &String) -> (res: String)
    ensures
        res@ == s@,
{
    s.clone()
}

fn owned(s: &str) -> (res: String)
    ensures
        res@ == s@,
{
    s.to_owned()
}

/// Finds the port's character-usage table in the metadata.
fn port_characters(data: &ReplayData, port: u8) -> (res: Option<&Vec<CharacterCount>>)
    ensures
        match res {
            Some(cs) => characters_of_port(*data, port) == Some(cs@),
            None => characters_of_port(*data, port) is None,
        },
{
    let md = match &data.metadata {
        Some(md) => md,
        None => return None,
    };
    let mp = match &md.players {
        Some(mp) => mp,
        None => return None,
    };
    let key = u8_decimal(port);
    let mut i: usize = 0;
    while i < mp.len()
        invariant
            i <= mp@.len(),
            key@ == decimal(port as nat),
            find_key(mp@.take(i as int), key@) is None,
            data.metadata == Some(*md),
            md.players == Some(*mp),
        decreases mp@.len() - i,
    {
        assert(mp@.take(i + 1).drop_last() =~= mp@.take(i as int));
        let k = chars_of(mp[i].key.as_str());
        if chars_eq(&k, &key) {
            assert(find_key(mp@.take(i + 1), key@) == Some(i as int));
            proof {
                lemma_find_key_prefix(mp@, key@, (i + 1) as int);
            }

            return match &mp[i].characters {
                Some(cs) => Some(cs),
                None => None,
            };
        }
        i = i + 1;
    }
    assert(mp@.take(i as int) =~= mp@);
    None
}

proof fn lemma_find_key_prefix(mp: Seq<MetadataPlayer>, key: Seq<char>, n: int)
    requires
        0 <= n <= mp.len(),
        find_key(mp.take(n), key) is Some,
    ensures
        find_key(mp, key) == find_key(mp.take(n), key),
    decreases mp.len() - n,
{
    if n < mp.len() {
        assert(mp.take(n + 1).drop_last() =~= mp.take(n));
        lemma_find_key_prefix(mp, key, n + 1);
    } else {
        assert(mp.take(n) =~= mp);
    }
}

/// The in-game character number of the player at `port`.
fn character_number_of(data: &ReplayData, port: u8) -> (res: Result<i32, ReplayError>)
    ensures
        match res {
            Ok(v) => character_number(*data, port) == Ok::<int, ReplayError>(v as int),
            Err(e) => character_number(*data, port) == Err::<int, ReplayError>(e),
        },
{
    let cs = match port_characters(data, port) {
        Some(cs) => cs,
        None => return Err(ReplayError::MissingCharacterMetadata),
    };
    if cs.len() == 0 {
        return Err(ReplayError::NoCharacters);
    }
    let mut best: usize = 0;
    let mut i: usize = 1;
    while i < cs.len()
        invariant
            1 <= i <= cs@.len(),
            best == most_used_position(cs@.take(i as int)),
            best < i,
        decreases cs@.len() - i,
    {
        assert(cs@.take(i + 1).drop_last() =~= cs@.take(i as int));
        let wi: i64 = match cs[i].count { Some(v) => v, None => 0 };
        let wb: i64 = match cs[best].count { Some(v) => v, None => 0 };
        if wi >= wb {
            best = i;
        }
        i = i + 1;
    }
    assert(cs@.take(i as int) =~= cs@);
    let key = chars_of(cs[best].character.as_str());
    match parse_i32_chars(&key) {
        Some(v) => Ok(v),
        None => Err(ReplayError::InvalidCharacterNumber),
    }
}

/// The side of the match of the player at position `i`.
fn player_info(data: &ReplayData, cfg: &Players, i: usize, leader: usize, online: bool) -> (res: Result<PlayerInfo, ReplayError>)
    requires
        i < data.players@.len(),
        data.frames@.len() > 0,
        data.end is Some,
    ensures
        match res {
            Ok(p) => player_result(*data, *cfg, i as int, leader as int, online) == Ok::<PlayerInfoView, ReplayError>(p@),
            Err(e) => player_result(*data, *cfg, i as int, leader as int, online) == Err::<PlayerInfoView, ReplayError>(e),
        },
{
    let player = &data.players[i];
    if player.kind != PlayerKind::Human {
        return Err(ReplayError::NonHumanPlayer);
    }
    let code: String = if online {
        match &player.netplay_code {
            None => return Err(ReplayError::MissingNetplay),
            Some(c) => {
                if !match_player_code(cfg, c.as_str()) {
                    return Err(ReplayError::UnrecognizedPlayer);
                }
                copy_string(c)
            },
        }
    } else {
        owned(r_presser(cfg, i == leader))
    };
    let number = match character_number_of(data, player.port) {
        Ok(v) => v,
        Err(e) => return Err(e),
    };
    let last = &data.frames[data.frames.len() - 1];
    if i >= last.len() {
        return Err(ReplayError::MissingPortData);
    }
    let stocks = last[i].stocks;
    let end = match &data.end {
        Some(end) => end,
        None => return Err(ReplayError::MissingEnd),
    };
    let placements = match &end.placements {
        Some(ps) => ps,
        None => return Err(ReplayError::MissingPlacements),
    };
    if i >= placements.len() {
        return Err(ReplayError::MissingPlacement);
    }
    let won = placements[i] == 0;
    match InGameCharacter::from_code(number) {
        None => Err(ReplayError::InvalidCharacter),
        Some(c) => Ok(PlayerInfo {
            code,
            port: player.port,
            character: CSSCharacter::from(c),
            stocks,
            won,
        }),
    }
}

/// Turns a decoded replay into the match it records, naming the players by the tracked
/// codes in `cfg`.
pub fn parse_replay(data: &ReplayData, cfg: &Players) -> (res: Result<Match, ReplayError>)
    requires
        reaches_press_count(*data, replay_start(*data)) ==> countable_frames(*data),
    ensures
        match res {
            Ok(m) => parse_replay_spec(*data, *cfg) == Ok::<MatchView, ReplayError>(m@),
            Err(e) => parse_replay_spec(*data, *cfg) == Err::<MatchView, ReplayError>(e),
        },
{
    let start = match &data.metadata {
        Some(md) => match &md.start_at {
            Some(s) => parse_utc_timestamp(s.as_str()),
            None => None,
        },
        None => None,
    };
    replay_match(data, cfg, start)
}

/// Whether every frame holds at most two ports and there are at most `i32::MAX` frames.
fn frames_countable(data: &ReplayData) -> (r: bool)
    ensures
        r == countable_frames(*data),
{
    if data.frames.len() > 2147483647 {
        return false;
    }
    let mut f: usize = 0;
    while f < data.frames.len()
        invariant
            f <= data.frames@.len(),
            forall|j: int| 0 <= j < f ==> #[trigger] data.frames@[j]@.len() <= 2,
        decreases data.frames@.len() - f,
    {
        if data.frames[f].len() > 2 {
            return false;
        }
        f = f + 1;
    }
    true
}

/// Turns a decoded replay into the match it records, as `parse_replay` does, where that
/// stays within the R-press count; `None` where the count is reached on a frame of more
/// than two ports or on more than `i32::MAX` frames.
pub fn try_parse_replay(data: &ReplayData, cfg: &Players) -> (res: Option<Result<Match, ReplayError>>)
    ensures
        res is None <==> (reaches_press_count(*data, replay_start(*data)) && !countable_frames(*data)),
        match res {
            Some(Ok(m)) => parse_replay_spec(*data, *cfg) == Ok::<MatchView, ReplayError>(m@),
            Some(Err(e)) => parse_replay_spec(*data, *cfg) == Err::<MatchView, ReplayError>(e),
            None => true,
        },
{
    let start = match &data.metadata {
        Some(md) => match &md.start_at {
            Some(s) => parse_utc_timestamp(s.as_str()),
            None => None,
        },
        None => None,
    };
    let reached = match &data.metadata {
        Some(md) => md.start_at.is_some() && data.hash.is_some() && start.is_some() && data.end.is_some(),
        None => false,
    };
    if reached && !frames_countable(data) {
        return None;
    }
    Some(replay_match(data, cfg, start))
}

/// Turns a decoded replay into the match it records, given the timestamp `start` that its
/// `startAt` reads as (`None` where it does not read).
pub fn replay_match(data: &ReplayData, cfg: &Players, start: Option<i64>) -> (res: Result<Match, ReplayError>)
    requires
        reaches_press_count(*data, start) ==> countable_frames(*data),
    ensures
        match res {
            Ok(m) => replay_match_spec(*data, *cfg, start) == Ok::<MatchView, ReplayError>(m@),
            Err(e) => replay_match_spec(*data, *cfg, start) == Err::<MatchView, ReplayError>(e),
        },
{
    let md = match &data.metadata {
        Some(md) => md,
        None => return Err(ReplayError::MissingMetadata),
    };
    let hash = match &data.hash {
        Some(h) => copy_string(h),
        None => return Err(ReplayError::MissingHash),
    };
    if md.start_at.is_none() {
        return Err(ReplayError::MissingStartAt);
    }
    let datetime = match start {
        Some(t) => t,
        None => return Err(ReplayError::InvalidStartAt),
    };
    let online = match &data.match_id {
        Some(id) => id.as_str().unicode_len() > 0,
        None => false,
    };
    let end = match &data.end {
        Some(end) => end,
        None => return Err(ReplayError::MissingEnd),
    };
    let counts = match count_r_presses(&data.frames) {
        Ok(c) => c,
        Err(e) => return Err(e),
    };
    let leader: usize = if counts[1] >= counts[0] { 1 } else { 0 };
    let mut infos: Vec<PlayerInfo> = Vec::new();
    assert(infos@.map_values(|p: PlayerInfo| p@) =~= Seq::<PlayerInfoView>::empty());
    let mut i: usize = 0;
    while i < data.players.len()
        invariant
            i <= data.players@.len(),
            data.frames@.len() > 0,
            data.end == Some(*end),
            data.metadata == Some(*md),
            data.hash matches Some(h) && h@ == hash@,
            md.start_at is Some,
            start == Some(datetime),
            leader as int == r_press_leader(data.frames@),
            online == is_online_spec(*data),
            collect_players(*data, *cfg, leader as int, online, i as nat)
                == Ok::<Seq<PlayerInfoView>, ReplayError>(infos@.map_values(|p: PlayerInfo| p@)),
        decreases data.players@.len() - i,
    {
        match player_info(data, cfg, i, leader, online) {
            Ok(p) => {
                let ghost before = infos@.map_values(|p: PlayerInfo| p@);
                infos.push(p);
                assert(infos@.map_values(|p: PlayerInfo| p@) =~= before.push(p@));
            },
            Err(e) => {
                proof {
                    lemma_collect_players_err(*data, *cfg, leader as int, online, (i + 1) as nat, data.players@.len());
                }
                return Err(e);
            },
        }
        i = i + 1;
    }
    if infos.len() != 2 {
        return Err(ReplayError::NotTwoPlayers);
    }
    let stage = match Stage::from_code(data.stage) {
        Some(s) => s,
        None => return Err(ReplayError::InvalidStage),
    };
    let second = infos.pop().unwrap();
    let first = infos.pop().unwrap();
    let players = if is_player1(cfg, first.code.as_str()) { (first, second) } else { (second, first) };
    let lras_initiator = match end.lras_initiator {
        Some(Some(port)) => Some(port),
        _ => None,
    };
    Ok(Match {
        hash,
        datetime,
        frames: data.frames.len(),
        stage,
        players,
        is_online: online,
        end_method: end.method,
        lras_initiator,
        ignore: false,
    })
}

proof fn lemma_collect_players_ok(data: ReplayData, cfg: Players, leader: int, online: bool, n: nat)
    requires
        collect_players(data, cfg, leader, online, n) is Ok,
    ensures
        collect_players(data, cfg, leader, online, n)->Ok_0.len() == n,
        forall|i: int| 0 <= i < n ==> player_result(data, cfg, i, leader, online)
            == Ok::<PlayerInfoView, ReplayError>(#[trigger] collect_players(data, cfg, leader, online, n)->Ok_0[i]),
    decreases n,
{
    if n > 0 {
        lemma_collect_players_ok(data, cfg, leader, online, (n - 1) as nat);
        let ps = collect_players(data, cfg, leader, online, (n - 1) as nat)->Ok_0;
        assert forall|i: int| 0 <= i < n - 1 implies collect_players(data, cfg, leader, online, n)->Ok_0[i] == ps[i] by {}
    }
}

/// The sides of a match read from a replay: each carries one of the two tracked codes;
/// player 1's code comes first whenever either side has it; and offline, with two
/// different tracked codes, the sides are player 1's then player 2's (the player who
/// pressed R the most being player 1).
pub proof fn lemma_parse_replay_sides(data: ReplayData, cfg: Players)
    requires
        parse_replay_spec(data, cfg) is Ok,
    ensures
        ({
            let m = parse_replay_spec(data, cfg)->Ok_0;
            &&& m.players.0.code == cfg.p1_id@ || m.players.0.code == cfg.p2_id@
            &&& m.players.1.code == cfg.p1_id@ || m.players.1.code == cfg.p2_id@
            &&& m.players.0.code == cfg.p1_id@ || m.players.1.code != cfg.p1_id@
            &&& (!m.is_online && cfg.p1_id@ != cfg.p2_id@) ==> m.players.0.code == cfg.p1_id@ && m.players.1.code == cfg.p2_id@
        }),
{
    let online = is_online_spec(data);
    let leader = r_press_leader(data.frames@);
    let n = data.players@.len();
    lemma_collect_players_ok(data, cfg, leader, online, n);
    let ps = collect_players(data, cfg, leader, online, n)->Ok_0;
    assert(player_result(data, cfg, 0, leader, online) == Ok::<PlayerInfoView, ReplayError>(ps[0]));
    assert(player_result(data, cfg, 1, leader, online) == Ok::<PlayerInfoView, ReplayError>(ps[1]));
}

proof fn lemma_collect_players_err(data: ReplayData, cfg: Players, leader: int, online: bool, n: nat, m: nat)
    requires
        n <= m,
        collect_players(data, cfg, leader, online, n) is Err,
    ensures
        collect_players(data, cfg, leader, online, m) == collect_players(data, cfg, leader, online, n),
    decreases m - n,
{
    if n < m {
        lemma_collect_players_err(data, cfg, leader, online, n, (m - 1) as nat);
    }
}

} // verus!

use vstd::prelude::*;

use crate::game::EndMethod;
use crate::stream::replay_stream_ok;
use crate::replay::{
    CharacterCount, MetadataPlayer, PlayerKind, PortFrame, ReplayData, ReplayEnd, ReplayMetadata,
    ReplayPlayer,
};

verus! {

#[verifier::external_type_specification]
#[verifier::external_body]
pub struct ExGame(peppi::game::immutable::Game);

/// What peppi's `slippi::read` decodes the bytes of a `.slp` file to (the hash computed,
/// every frame kept), as the match logic reads it; `None` where peppi refuses the bytes.
pub uninterp spec fn decoded_replay_of(bytes: Seq<u8>) -> Option<ReplayData>;

/// A game that peppi decoded, kept with the bytes it was decoded from.
struct DecodedGame {
    game: peppi::game::immutable::Game,
    source: Ghost<Seq<u8>>,
}

/// `peppi::io::slippi::read` on `bytes`, with the hash computed and every frame kept.
/// Claimed: on bytes of the shape `replay_stream_ok` states, it returns (its frame-id
/// asserts, port indexing, splitter asserts and column `unwrap`s all hold, and the
/// metadata nests boundedly); it decodes exactly where `decoded_replay_of` is `Some`;
/// the game is kept with `bytes`.
#[verifier::external_body]
fn read_game(bytes: &[u8]) -> (res: Option<DecodedGame>)
    requires
        replay_stream_ok(bytes@),
    ensures
        res is Some <==> decoded_replay_of(bytes@) is Some,
        res matches Some(g) ==> g.source@ == bytes@,
{
    let opts = peppi::io::slippi::de::Opts { skip_frames: false, compute_hash: true, debug: None };
    match peppi::io::slippi::read(std::io::Cursor::new(bytes), Some(&opts)) {
        Ok(game) => Some(DecodedGame { game, source: Ghost(bytes@) }),
        Err(_) => None,
    }
}

/// The metadata map of the decoded game (`startAt`, and `players` with each entry's
/// `characters` table), in the order peppi keeps the map.
/// Claimed: it is the `metadata` of `decoded_replay_of` for the game's bytes.
#[verifier::external_body]
fn game_metadata(g: &DecodedGame) -> (res: Option<ReplayMetadata>)
    ensures
        decoded_replay_of(g.source@) matches Some(r) ==> res == r.metadata,
{
    g.game.metadata.as_ref().map(|md| ReplayMetadata {
        start_at: md.get("startAt").and_then(|v| v.as_str()).map(str::to_string),
        players: md.get("players").and_then(|p| p.as_object()).map(|obj| {
            obj.iter().map(|(key, value)| MetadataPlayer {
                key: key.clone(),
                characters: value.get("characters").and_then(|c| c.as_object()).map(|cs| {
                    cs.iter().map(|(c, n)| CharacterCount { character: c.clone(), count: n.as_i64() })
                        .collect()
                }),
            }).collect()
        }),
    })
}

/// The `hash` of the decoded game.
/// Claimed: it is the `hash` of `decoded_replay_of` for the game's bytes.
#[verifier::external_body]
fn game_hash(g: &DecodedGame) -> (res: Option<String>)
    ensures
        decoded_replay_of(g.source@) matches Some(r) ==> res == r.hash,
{
    g.game.hash.clone()
}

/// The id of the game-start block's `match`, read from the block as serde serialises it
/// (key `match`, then `id`).
/// Claimed: it is the `match_id` of `decoded_replay_of` for the game's bytes.
#[verifier::external_body]
fn game_match_id(g: &DecodedGame) -> (res: Option<String>)
    ensures
        decoded_replay_of(g.source@) matches Some(r) ==> res == r.match_id,
{
    let start = serde_json::to_value(&g.game.start).ok()?;
    start.get("match")?.get("id")?.as_str().map(str::to_string)
}

/// The game-end block: its method, LRAS initiator and the players' placements.
/// Claimed: it is the `end` of `decoded_replay_of` for the game's bytes.
#[verifier::external_body]
fn game_end(g: &DecodedGame) -> (res: Option<ReplayEnd>)
    ensures
        decoded_replay_of(g.source@) matches Some(r) ==> res == r.end,
{
    g.game.end.as_ref().map(|end| ReplayEnd {
        method: match end.method {
            peppi::game::EndMethod::Unresolved => EndMethod::Unresolved,
            peppi::game::EndMethod::Time => EndMethod::Time,
            peppi::game::EndMethod::Game => EndMethod::Game,
            peppi::game::EndMethod::Resolved => EndMethod::Resolved,
            peppi::game::EndMethod::NoContest => EndMethod::NoContest,
        },
        lras_initiator: end.lras_initiator.map(|p| p.map(|port| port as u8)),
        placements: end.players.as_ref().map(|ps| ps.iter().map(|p| p.placement).collect()),
    })
}

/// Every frame of the decoded game (`Game::frame` for each index below `Game::len`), each
/// with its ports' physical buttons before the frame and stocks after it.
/// Claimed: where the bytes have the shape `replay_stream_ok` states, every column of
/// every port holds one entry per frame, so each index is in range; the result is the
/// `frames` of `decoded_replay_of` for the game's bytes.
#[verifier::external_body]
fn game_frames(g: &DecodedGame) -> (res: Vec<Vec<PortFrame>>)
    requires
        replay_stream_ok(g.source@),
    ensures
        decoded_replay_of(g.source@) matches Some(r) ==> res == r.frames,
{
    let n = peppi::game::Game::len(&g.game);
    (0..n).map(|idx| {
        peppi::game::Game::frame(&g.game, idx).ports.iter().map(|port| PortFrame {
            buttons: port.leader.pre.buttons_physical,
            stocks: port.leader.post.stocks,
        }).collect()
    }).collect()
}

/// The players of the game-start block, each with its type (read back from the type that
/// serde writes for it under the key `type`; the derived round trip of `PlayerType` does
/// not fail), its port and its netplay code.
/// Claimed: it is the `players` of `decoded_replay_of` for the game's bytes.
#[verifier::external_body]
fn game_players(g: &DecodedGame) -> (res: Vec<ReplayPlayer>)
    ensures
        decoded_replay_of(g.source@) matches Some(r) ==> res == r.players,
{
    g.game.start.players.iter().map(|player| ReplayPlayer {
        kind: match serde_json::to_value(player).and_then(|v| serde_json::from_value(v["type"].clone())) {
            Ok(peppi::game::PlayerType::Human) => PlayerKind::Human,
            Ok(peppi::game::PlayerType::Cpu) => PlayerKind::Cpu,
            Ok(peppi::game::PlayerType::Demo) | Err(_) => PlayerKind::Demo,
        },
        port: player.port as u8,
        netplay_code: player.netplay.as_ref().map(|n| n.code.as_str().to_string()),
    }).collect()
}

/// The stage number of the game-start block.
/// Claimed: it is the `stage` of `decoded_replay_of` for the game's bytes.
#[verifier::external_body]
fn game_stage(g: &DecodedGame) -> (res: u16)
    ensures
        decoded_replay_of(g.source@) matches Some(r) ==> res == r.stage,
{
    g.game.start.stage
}

/// Decodes the bytes of a `.slp` replay file into what the match logic reads of it, or
/// `None` where peppi refuses them. The bytes must have the shape that
/// `stream::check_replay_stream` tests.
pub fn decode_replay(bytes: &[u8]) -> (res: Option<ReplayData>)
    requires
        replay_stream_ok(bytes@),
    ensures
        res == decoded_replay_of(bytes@),
{
    match read_game(bytes) {
        None => None,
        Some(g) => Some(ReplayData {
            metadata: game_metadata(&g),
            hash: game_hash(&g),
            match_id: game_match_id(&g),
            end: game_end(&g),
            frames: game_frames(&g),
            players: game_players(&g),
            stage: game_stage(&g),
        }),
    }
}

} // verus!

use vstd::prelude::*;

verus! {

/// The whole configuration file.
pub struct Config {
    pub players: Players,
    pub directory: Directory,
    pub database: Database,
    pub rating: Rating,
    pub debug: Debug,
}

/// The two tracked players, by their netplay codes.
pub struct Players {
    pub p1_id: String,
    pub p2_id: String,
}

/// Where replays are looked for.
pub struct Directory {
    pub slippi: String,
    pub extra: Vec<String>,
}

/// Where the match database is stored.
pub struct Database {
    pub path: String,
}

/// Parameters of the rating computation.
pub struct Rating {
    pub min_frames: usize,
    pub rating_window: usize,
}

/// Debugging switches.
pub struct Debug {
    pub update_db: bool,
}

/// Whether `code` is the netplay code of one of the two tracked players.
pub fn match_player_code(players: &Players, code: &str) -> (res: bool)
    ensures
        res == (code@ == players.p1_id@ || code@ == players.p2_id@),
{
    let code = code.to_owned();
    code == players.p1_id || code == players.p2_id
}

/// The code given to a player of an offline game: the player who pressed R the most
/// is taken to be player 1, the other player 2.
pub fn r_presser(players: &Players, is_max: bool) -> (res: &str)
    ensures
        res@ == (if is_max { players.p1_id@ } else { players.p2_id@ }),
{
    if is_max {
        players.p1_id.as_str()
    } else {
        players.p2_id.as_str()
    }
}

/// Whether `id` is player 1's netplay code.
pub fn is_player1(players: &Players, id: &str) -> (res: bool)
    ensures
        res == (id@ == players.p1_id@),
{
    let id = id.to_owned();
    id == players.p1_id
}

} // verus!

use vstd::prelude::*;

use crate::game::{CSSCharacter, Match, MatchView, PlayerInfo, PlayerInfoView, Stage};
use crate::store::{MatchStore, match_views, matches_for_stats};
use crate::time::{naive_timestamp_of, parse_naive_timestamp};

verus! {

/// Conditions on one side of a match; an absent condition holds of every side.
pub struct MatchesQueryPlayer {
    pub code: Option<String>,
    pub character: Option<CSSCharacter>,
    pub stocks: Option<u8>,
    pub won: Option<bool>,
}

/// Conditions on a match; an absent condition holds of every match. The dates are
/// written `%Y-%m-%dT%H:%M:%S` (UTC); a date that does not read so is no condition.
pub struct MatchesQuery {
    pub start_date: Option<String>,
    pub end_date: Option<String>,
    pub min_length: Option<usize>,
    pub stage: Option<Stage>,
    pub players: (Option<MatchesQueryPlayer>, Option<MatchesQueryPlayer>),
    pub is_online: Option<bool>,
}

/// Whether the side `p` meets the conditions `q`.
pub open spec fn player_matches_spec(p: PlayerInfoView, q: MatchesQueryPlayer) -> bool {
    &&& (q.code matches Some(c) ==> p.code == c@)
    &&& (q.character matches Some(ch) ==> p.character == ch)
    &&& (q.stocks matches Some(s) ==> p.stocks == s)
    &&& (q.won matches Some(w) ==> p.won == w)
}

/// Whether `m` meets the conditions `q`, the start and end dates having been read as the
/// timestamps `start` and `end`.
pub open spec fn match_filter_spec(m: MatchView, q: MatchesQuery, start: Option<i64>, end: Option<i64>) -> bool {
    &&& (start matches Some(ts) ==> m.datetime >= ts)
    &&& (end matches Some(ts) ==> m.datetime <= ts)
    &&& (q.min_length matches Some(min) ==> m.frames >= min)
    &&& (q.stage matches Some(st) ==> m.stage == st)
    &&& (q.is_online matches Some(flag) ==> m.is_online == flag)
    &&& (q.players.0 matches Some(p) ==> player_matches_spec(m.players.0, p))
    &&& (q.players.1 matches Some(p) ==> player_matches_spec(m.players.1, p))
}

/// The format of query dates.
pub open spec fn query_date_format() -> Seq<char> {
    "%Y-%m-%dT%H:%M:%S"@
}

/// The timestamp a query date reads as.
pub open spec fn query_date(d: Option<String>) -> Option<i64> {
    match d {
        Some(s) => naive_timestamp_of(s@, query_date_format()),
        None => None,
    }
}

/// Whether `m` meets the conditions `q`.
pub open spec fn match_query_spec(m: MatchView, q: MatchesQuery) -> bool {
    match_filter_spec(m, q, query_date(q.start_date), query_date(q.end_date))
}

/// Whether the side `p` meets the conditions `q`.
pub fn player_matches(p: &PlayerInfo, q: &MatchesQueryPlayer) -> (res: bool)
    ensures
        res == player_matches_spec(p@, *q),
{
    let code_ok = match &q.code {
        Some(c) => p.code == *c,
        None => true,
    };
    let character_ok = match q.character {
        Some(ch) => p.character == ch,
        None => true,
    };
    let stocks_ok = match q.stocks {
        Some(s) => p.stocks == s,
        None => true,
    };
    let won_ok = match q.won {
        Some(w) => p.won == w,
        None => true,
    };
    code_ok && character_ok && stocks_ok && won_ok
}

/// Whether `m` meets the conditions `q`, given the timestamps its dates read as.
pub fn match_filter_with_dates(m: &Match, q: &MatchesQuery, start: Option<i64>, end: Option<i64>) -> (res: bool)
    ensures
        res == match_filter_spec(m@, *q, start, end),
{
    let before_start = match start {
        Some(ts) => m.datetime < ts,
        None => false,
    };
    let after_end = match end {
        Some(ts) => m.datetime > ts,
        None => false,
    };
    let too_short = match q.min_length {
        Some(min) => m.frames < min,
        None => false,
    };
    let other_stage = match q.stage {
        Some(st) => m.stage != st,
        None => false,
    };
    let other_mode = match q.is_online {
        Some(flag) => m.is_online != flag,
        None => false,
    };
    if before_start || after_end || too_short || other_stage || other_mode {
        return false;
    }
    let first_ok = match &q.players.0 {
        Some(p) => player_matches(&m.players.0, p),
        None => true,
    };
    let second_ok = match &q.players.1 {
        Some(p) => player_matches(&m.players.1, p),
        None => true,
    };
    first_ok && second_ok
}

fn read_date(d: &Option<String>) -> (res: Option<i64>)
    ensures
        res == query_date(*d),
{
    match d {
        Some(s) => parse_naive_timestamp(s.as_str(), "%Y-%m-%dT%H:%M:%S"),
        None => None,
    }
}

/// Whether `m` meets the conditions `q`.
pub fn match_filter(m: &Match, q: &MatchesQuery) -> (res: bool)
    ensures
        res == match_query_spec(m@, *q),
{
    let start = read_date(&q.start_date);
    let end = read_date(&q.end_date);
    match_filter_with_dates(m, q, start, end)
}

/// The matches that count for the statistics (see `counts_for_stats`) and meet `q`, in
/// store order.
pub fn query_store(store: &MatchStore, min_frames: usize, q: &MatchesQuery) -> (res: Vec<Match>)
    ensures
        match_views(res@) == matches_for_stats(store@, min_frames).filter(|m: MatchView| match_query_spec(m, *q)),
{
    let candidates = store.get_values_filtered(min_frames);
    let ghost cs = match_views(candidates@);
    let mut out: Vec<Match> = Vec::new();
    let mut i: usize = 0;
    while i < candidates.len()
        invariant
            i <= candidates@.len(),
            cs == match_views(candidates@),
            match_views(out@) == cs.take(i as int).filter(|m: MatchView| match_query_spec(m, *q)),
        decreases candidates@.len() - i,
    {
        let m = &candidates[i];
        proof {
            assert(cs[i as int] == m@);
            assert(cs.take(i + 1) =~= cs.take(i as int).push(m@));
            cs.take(i as int).lemma_filter_push(m@, |x: MatchView| match_query_spec(x, *q));
        }
        if match_filter(m, q) {
            let c = m.clone();
            assert(match_views(out@.push(c)) =~= match_views(out@).push(c@));
            out.push(c);
        }
        i = i + 1;
    }
    assert(cs.take(i as int) =~= cs);
    out
}

/// A query with no conditions keeps every match.
pub proof fn lemma_empty_query_keeps_all(m: MatchView, q: MatchesQuery)
    requires
        q.start_date is None,
        q.end_date is None,
        q.min_length is None,
        q.stage is None,
        q.is_online is None,
        q.players.0 is None,
        q.players.1 is None,
    ensures
        match_query_spec(m, q),
{
}

/// The conditions on the first player are tested on the match's first side: a query
/// whose only condition is `p` on the first player keeps a match exactly when its first
/// side meets `p`, whatever its second side is.
pub proof fn lemma_first_player_condition_on_first_side(m: MatchView, q: MatchesQuery, p: MatchesQueryPlayer)
    requires
        q.players.0 == Some(p),
        q.players.1 is None,
        q.min_length is None,
        q.stage is None,
        q.is_online is None,
    ensures
        match_filter_spec(m, q, None, None) == player_matches_spec(m.players.0, p),
        forall|other: PlayerInfoView| match_filter_spec(MatchView { players: (m.players.0, other), ..m }, q, None, None)
            == match_filter_spec(m, q, None, None),
{
}

/// Likewise the conditions on the second player are tested on the match's second side.
pub proof fn lemma_second_player_condition_on_second_side(m: MatchView, q: MatchesQuery, p: MatchesQueryPlayer)
    requires
        q.players.0 is None,
        q.players.1 == Some(p),
        q.min_length is None,
        q.stage is None,
        q.is_online is None,
    ensures
        match_filter_spec(m, q, None, None) == player_matches_spec(m.players.1, p),
        forall|other: PlayerInfoView| match_filter_spec(MatchView { players: (other, m.players.1), ..m }, q, None, None)
            == match_filter_spec(m, q, None, None),
{
}

/// A character condition on a player keeps exactly the matches in which that side played
/// the character: the first player's condition looks at `m.players.0`, the second's at
/// `m.players.1`.
pub proof fn lemma_character_condition(m: MatchView, q: MatchesQuery, c: CSSCharacter)
    requires
        q.min_length is None,
        q.stage is None,
        q.is_online is None,
    ensures
        (q.players.1 is None && q.players.0 == Some(MatchesQueryPlayer { code: None, character: Some(c), stocks: None, won: None }))
            ==> (match_filter_spec(m, q, None, None) <==> m.players.0.character == c),
        (q.players.0 is None && q.players.1 == Some(MatchesQueryPlayer { code: None, character: Some(c), stocks: None, won: None }))
            ==> (match_filter_spec(m, q, None, None) <==> m.players.1.character == c),
{
}

/// Each condition on the first player looks at the matching field of the first side: a
/// code, a stock count or a result alone keeps exactly the matches whose first side has
/// that code, that many stocks left, or that result.
pub proof fn lemma_first_player_field_conditions(m: MatchView, q: MatchesQuery, code: String, stocks: u8, won: bool)
    requires
        q.players.1 is None,
        q.min_length is None,
        q.stage is None,
        q.is_online is None,
    ensures
        q.players.0 == Some(MatchesQueryPlayer { code: Some(code), character: None, stocks: None, won: None })
            ==> (match_filter_spec(m, q, None, None) <==> m.players.0.code == code@),
        q.players.0 == Some(MatchesQueryPlayer { code: None, character: None, stocks: Some(stocks), won: None })
            ==> (match_filter_spec(m, q, None, None) <==> m.players.0.stocks == stocks),
        q.players.0 == Some(MatchesQueryPlayer { code: None, character: None, stocks: None, won: Some(won) })
            ==> (match_filter_spec(m, q, None, None) <==> m.players.0.won == won),
{
}

} // verus!



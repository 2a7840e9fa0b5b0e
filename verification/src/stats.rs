use vstd::prelude::*;

use crate::game::{CHARACTER_COUNT, Match, MatchView};
use crate::store::{lemma_match_views_push, match_views};
use crate::time::{in_calendar_range, utc_day_number, utc_days_from_ce};

verus! {

/// One game of a character as the rating update sees it: the opposing character's
/// position in the tables and whether the character won.
#[derive(Debug, Clone, Copy, PartialEq, Eq, Structural)]
pub struct RatedGame {
    pub opponent: usize,
    pub won: bool,
}

/// The games that character `c` played on side `side` (0 for player 1, 1 for player 2)
/// in `ms`, in order.
pub open spec fn games_of(ms: Seq<MatchView>, side: int, c: int) -> Seq<RatedGame>
    decreases ms.len(),
{
    if ms.len() == 0 {
        Seq::empty()
    } else {
        let m = ms.last();
        let front = games_of(ms.drop_last(), side, c);
        let (mine, theirs) = if side == 0 { (m.players.0, m.players.1) } else { (m.players.1, m.players.0) };
        if mine.character.index_spec() == c {
            front.push(RatedGame { opponent: theirs.character.index_spec(), won: mine.won })
        } else {
            front
        }
    }
}

/// The per-character game lists of one side.
pub open spec fn side_games_ok(table: Seq<Vec<RatedGame>>, ms: Seq<MatchView>, side: int) -> bool {
    &&& table.len() == CHARACTER_COUNT
    &&& forall|c: int| 0 <= c < CHARACTER_COUNT ==> #[trigger] table[c]@ == games_of(ms, side, c)
}

fn push_at(table: &mut Vec<Vec<RatedGame>>, k: usize, g: RatedGame)
    requires
        k < old(table)@.len(),
    ensures
        final(table)@.len() == old(table)@.len(),
        final(table)@[k as int]@ == old(table)@[k as int]@.push(g),
        forall|j: int| 0 <= j < old(table)@.len() && j != k ==> #[trigger] final(table)@[j] == old(table)@[j],
{
    let mut bucket: Vec<RatedGame> = Vec::new();
    table.set_and_swap(k, &mut bucket);
    bucket.push(g);
    table.set_and_swap(k, &mut bucket);
}

fn empty_tables() -> (res: Vec<Vec<RatedGame>>)
    ensures
        res@.len() == CHARACTER_COUNT,
        forall|c: int| 0 <= c < CHARACTER_COUNT ==> #[trigger] res@[c]@ == Seq::<RatedGame>::empty(),
{
    let mut t: Vec<Vec<RatedGame>> = Vec::new();
    let mut i: usize = 0;
    while i < CHARACTER_COUNT
        invariant
            i <= CHARACTER_COUNT,
            t@.len() == i,
            forall|c: int| 0 <= c < i ==> #[trigger] t@[c]@ == Seq::<RatedGame>::empty(),
        decreases CHARACTER_COUNT - i,
    {
        t.push(Vec::new());
        i = i + 1;
    }
    t
}

/// For each character on each side, the games it played in `matches`, each against the
/// character it faced; this is the input of one day's rating update.
pub fn games_per_character(matches: &Vec<Match>) -> (res: (Vec<Vec<RatedGame>>, Vec<Vec<RatedGame>>))
    ensures
        side_games_ok(res.0@, match_views(matches@), 0),
        side_games_ok(res.1@, match_views(matches@), 1),
{
    let mut t0 = empty_tables();
    let mut t1 = empty_tables();
    let ghost ms = match_views(matches@);
    let mut i: usize = 0;
    while i < matches.len()
        invariant
            i <= matches@.len(),
            ms == match_views(matches@),
            side_games_ok(t0@, ms.take(i as int), 0),
            side_games_ok(t1@, ms.take(i as int), 1),
        decreases matches@.len() - i,
    {
        let m = &matches[i];
        assert(ms[i as int] == m@);
        assert(ms.take(i + 1).drop_last() =~= ms.take(i as int));
        let a = m.players.0.character.index();
        let b = m.players.1.character.index();
        push_at(&mut t0, a, RatedGame { opponent: b, won: m.players.0.won });
        push_at(&mut t1, b, RatedGame { opponent: a, won: m.players.1.won });
        i = i + 1;
    }
    assert(ms.take(i as int) =~= ms);
    (t0, t1)
}

/// How many games the first `k` characters played on side `side`.
pub open spec fn games_total(ms: Seq<MatchView>, side: int, k: int) -> int
    decreases k,
{
    if k <= 0 {
        0
    } else {
        games_total(ms, side, k - 1) + games_of(ms, side, k - 1).len()
    }
}

/// The character that played match `m` on side `side`.
pub open spec fn side_character(m: MatchView, side: int) -> int {
    if side == 0 { m.players.0.character.index_spec() as int } else { m.players.1.character.index_spec() as int }
}

proof fn lemma_games_total_step(ms: Seq<MatchView>, side: int, k: int)
    requires
        ms.len() > 0,
        0 <= k,
    ensures
        games_total(ms, side, k) == games_total(ms.drop_last(), side, k)
            + if side_character(ms.last(), side) < k { 1int } else { 0 },
    decreases k,
{
    if k > 0 {
        lemma_games_total_step(ms, side, k - 1);
    }
}

/// Every match gives exactly one game to each side: the games of all characters on a
/// side add up to the number of matches.
pub proof fn lemma_games_total(ms: Seq<MatchView>, side: int)
    requires
        side == 0 || side == 1,
    ensures
        games_total(ms, side, CHARACTER_COUNT as int) == ms.len(),
    decreases ms.len(),
{
    if ms.len() == 0 {
        lemma_games_total_empty(ms, side, CHARACTER_COUNT as int);
    } else {
        lemma_games_total(ms.drop_last(), side);
        lemma_games_total_step(ms, side, CHARACTER_COUNT as int);
    }
}

proof fn lemma_games_total_empty(ms: Seq<MatchView>, side: int, k: int)
    requires
        ms.len() == 0,
    ensures
        games_total(ms, side, k) == 0,
    decreases k,
{
    if k > 0 {
        lemma_games_total_empty(ms, side, k - 1);
    }
}

/// The matches of `ms` played on the UTC day numbered `d`, in order.
pub open spec fn matches_on_day(ms: Seq<MatchView>, d: int) -> Seq<MatchView> {
    ms.filter(|m: MatchView| utc_day_number(m.datetime as int) == d)
}

/// The earliest day of the non-empty `ms`.
pub open spec fn first_day(ms: Seq<MatchView>) -> int
    decreases ms.len(),
{
    if ms.len() <= 1 {
        utc_day_number(ms[0].datetime as int)
    } else {
        let d = utc_day_number(ms.last().datetime as int);
        let f = first_day(ms.drop_last());
        if d < f { d } else { f }
    }
}

/// The latest day of the non-empty `ms`.
pub open spec fn last_day(ms: Seq<MatchView>) -> int
    decreases ms.len(),
{
    if ms.len() <= 1 {
        utc_day_number(ms[0].datetime as int)
    } else {
        let d = utc_day_number(ms.last().datetime as int);
        let l = last_day(ms.drop_last());
        if d > l { d } else { l }
    }
}

/// The rating schedule: one entry for every day from the first day with a match to the
/// last, each with that day's matches in order; none for no matches.
pub open spec fn is_schedule(days: Seq<Vec<Match>>, ms: Seq<MatchView>) -> bool {
    if ms.len() == 0 {
        days.len() == 0
    } else {
        &&& days.len() == last_day(ms) - first_day(ms) + 1
        &&& forall|k: int| 0 <= k < days.len() ==> match_views(#[trigger] days[k]@) == matches_on_day(ms, first_day(ms) + k)
    }
}

proof fn lemma_day_bounds(ms: Seq<MatchView>, i: int)
    requires
        0 <= i < ms.len(),
    ensures
        first_day(ms) <= utc_day_number(ms[i].datetime as int) <= last_day(ms),
    decreases ms.len(),
{
    if ms.len() > 1 && i < ms.len() - 1 {
        lemma_day_bounds(ms.drop_last(), i);
        assert(ms.drop_last()[i] == ms[i]);
    }
}

fn push_match_at(table: &mut Vec<Vec<Match>>, k: usize, m: Match)
    requires
        k < old(table)@.len(),
    ensures
        final(table)@.len() == old(table)@.len(),
        final(table)@[k as int]@ == old(table)@[k as int]@.push(m),
        forall|j: int| 0 <= j < old(table)@.len() && j != k ==> #[trigger] final(table)@[j] == old(table)@[j],
{
    let mut bucket: Vec<Match> = Vec::new();
    table.set_and_swap(k, &mut bucket);
    bucket.push(m);
    table.set_and_swap(k, &mut bucket);
}

/// Groups `matches` by the UTC day they started on, for the day-by-day rating update:
/// one entry per day from the first to the last (days without a match included), each
/// with that day's matches in their order in `matches`. `None` only where chrono puts
/// some match on no calendar date.
pub fn daily_schedule(matches: &Vec<Match>) -> (res: Option<Vec<Vec<Match>>>)
    ensures
        res matches Some(days) ==> is_schedule(days@, match_views(matches@)),
        (forall|i: int| 0 <= i < matches@.len() ==> in_calendar_range(#[trigger] matches@[i].datetime as int))
            ==> res is Some,
{
    let ghost ms = match_views(matches@);
    let ghost all_in = forall|j: int| 0 <= j < matches@.len() ==> in_calendar_range(#[trigger] matches@[j].datetime as int);
    let n = matches.len();
    let mut days: Vec<i64> = Vec::new();
    let mut i: usize = 0;
    while i < n
        invariant
            i <= n == matches@.len(),
            ms == match_views(matches@),
            days@.len() == i,
            forall|j: int| 0 <= j < i ==> #[trigger] days@[j] == utc_day_number(ms[j].datetime as int),
            forall|j: int| 0 <= j < i ==> -2147483648 <= #[trigger] days@[j] < 2147483648,
            all_in == forall|j: int| 0 <= j < matches@.len() ==> in_calendar_range(#[trigger] matches@[j].datetime as int),
            all_in ==> forall|j: int| 0 <= j < i ==> -90_000_000 <= #[trigger] days@[j] <= 90_000_000,
        decreases n - i,
    {
        assert(ms[i as int] == matches@[i as int]@);
        assert(all_in ==> in_calendar_range(matches@[i as int].datetime as int));
        match utc_days_from_ce(matches[i].datetime) {
            Some(d) => days.push(d as i64),
            None => return None,
        }
        i = i + 1;
    }
    let mut schedule: Vec<Vec<Match>> = Vec::new();
    if n == 0 {
        return Some(schedule);
    }
    let mut lo: i64 = days[0];
    let mut hi: i64 = days[0];
    let mut i: usize = 1;
    while i < n
        invariant
            1 <= i <= n == matches@.len() == days@.len(),
            ms == match_views(matches@),
            ms.len() == n,
            forall|j: int| 0 <= j < n ==> #[trigger] days@[j] == utc_day_number(ms[j].datetime as int),
            forall|j: int| 0 <= j < n ==> -2147483648 <= #[trigger] days@[j] < 2147483648,
            lo == first_day(ms.take(i as int)),
            hi == last_day(ms.take(i as int)),
            -2147483648 <= lo <= hi < 2147483648,
            all_in ==> forall|j: int| 0 <= j < n ==> -90_000_000 <= #[trigger] days@[j] <= 90_000_000,
            all_in ==> -90_000_000 <= lo && hi <= 90_000_000,
        decreases n - i,
    {
        assert(ms.take(i + 1).drop_last() =~= ms.take(i as int));
        assert(ms.take(i + 1).last() == ms[i as int]);
        if days[i] < lo {
            lo = days[i];
        }
        if days[i] > hi {
            hi = days[i];
        }
        i = i + 1;
    }
    assert(ms.take(n as int) =~= ms);
    let span = hi - lo + 1;
    if span as u64 > usize::MAX as u64 {
        return None;
    }
    let span = span as usize;
    let mut k: usize = 0;
    while k < span
        invariant
            k <= span,
            schedule@.len() == k,
            forall|j: int| 0 <= j < k ==> #[trigger] schedule@[j]@ == Seq::<Match>::empty(),
        decreases span - k,
    {
        schedule.push(Vec::new());
        k = k + 1;
    }
    let mut i: usize = 0;
    while i < n
        invariant
            i <= n == matches@.len() == days@.len(),
            ms == match_views(matches@),
            ms.len() == n,
            n > 0,
            forall|j: int| 0 <= j < n ==> #[trigger] days@[j] == utc_day_number(ms[j].datetime as int),
            lo == first_day(ms),
            hi == last_day(ms),
            -2147483648 <= lo <= hi < 2147483648,
            span == hi - lo + 1,
            schedule@.len() == span,
            forall|k: int| 0 <= k < span ==> match_views(#[trigger] schedule@[k]@) == matches_on_day(ms.take(i as int), lo + k),
        decreases n - i,
    {
        proof {
            lemma_day_bounds(ms, i as int);
        }
        let k = (days[i] - lo) as usize;
        let m = matches[i].clone();
        let ghost before = schedule@;
        proof {
            lemma_match_views_push(schedule@[k as int]@, m);
        }
        push_match_at(&mut schedule, k, m);
        proof {
            let prefix = ms.take(i as int);
            assert(ms.take(i + 1) =~= prefix.push(ms[i as int]));
            assert forall|kk: int| 0 <= kk < span implies match_views(#[trigger] schedule@[kk]@) == matches_on_day(ms.take(i + 1), lo + kk) by {
                prefix.lemma_filter_push(ms[i as int], |x: MatchView| utc_day_number(x.datetime as int) == lo + kk);
                if kk != k {
                    assert(schedule@[kk] == before[kk]);
                }
            }
        }
        i = i + 1;
    }
    assert(ms.take(n as int) =~= ms);
    Some(schedule)
}

/// How many matches the first `k` days of a schedule hold.
pub open spec fn scheduled_count(days: Seq<Vec<Match>>, k: int) -> int
    decreases k,
{
    if k <= 0 {
        0
    } else {
        scheduled_count(days, k - 1) + days[k - 1]@.len()
    }
}

/// How many matches of `ms` fall on the days `lo .. lo + k`, day by day.
pub open spec fn day_range_count(ms: Seq<MatchView>, lo: int, k: int) -> int
    decreases k,
{
    if k <= 0 {
        0
    } else {
        day_range_count(ms, lo, k - 1) + matches_on_day(ms, lo + k - 1).len()
    }
}

proof fn lemma_day_range_step(ms: Seq<MatchView>, lo: int, k: int)
    requires
        ms.len() > 0,
        0 <= k,
    ensures
        day_range_count(ms, lo, k) == day_range_count(ms.drop_last(), lo, k)
            + if lo <= utc_day_number(ms.last().datetime as int) < lo + k { 1int } else { 0 },
    decreases k,
{
    if k > 0 {
        lemma_day_range_step(ms, lo, k - 1);
        assert(ms.drop_last().push(ms.last()) =~= ms);
        ms.drop_last().lemma_filter_push(ms.last(), |x: MatchView| utc_day_number(x.datetime as int) == lo + k - 1);
    }
}

proof fn lemma_day_range_empty(ms: Seq<MatchView>, lo: int, k: int)
    requires
        ms.len() == 0,
    ensures
        day_range_count(ms, lo, k) == 0,
    decreases k,
{
    if k > 0 {
        lemma_day_range_empty(ms, lo, k - 1);
        reveal(Seq::filter);
    }
}

proof fn lemma_day_range_all(ms: Seq<MatchView>, lo: int, k: int)
    requires
        0 <= k,
        forall|i: int| 0 <= i < ms.len() ==> lo <= #[trigger] utc_day_number(ms[i].datetime as int) < lo + k,
    ensures
        day_range_count(ms, lo, k) == ms.len(),
    decreases ms.len(),
{
    if ms.len() == 0 {
        lemma_day_range_empty(ms, lo, k);
    } else {
        assert forall|i: int| 0 <= i < ms.drop_last().len() implies lo <= #[trigger] utc_day_number(ms.drop_last()[i].datetime as int) < lo + k by {
            assert(ms.drop_last()[i] == ms[i]);
        }
        lemma_day_range_all(ms.drop_last(), lo, k);
        lemma_day_range_step(ms, lo, k);
        assert(ms.last() == ms[ms.len() - 1]);
    }
}

proof fn lemma_scheduled_count_matches(days: Seq<Vec<Match>>, ms: Seq<MatchView>, lo: int, k: int)
    requires
        0 <= k <= days.len(),
        forall|j: int| 0 <= j < days.len() ==> match_views(#[trigger] days[j]@) == matches_on_day(ms, lo + j),
    ensures
        scheduled_count(days, k) == day_range_count(ms, lo, k),
    decreases k,
{
    if k > 0 {
        lemma_scheduled_count_matches(days, ms, lo, k - 1);
        assert(match_views(days[k - 1]@).len() == days[k - 1]@.len());
    }
}

/// A schedule holds every match exactly as often as it occurs: its days together hold
/// as many matches as there are.
pub proof fn lemma_schedule_holds_all(days: Seq<Vec<Match>>, ms: Seq<MatchView>)
    requires
        is_schedule(days, ms),
    ensures
        scheduled_count(days, days.len() as int) == ms.len(),
{
    if ms.len() > 0 {
        let lo = first_day(ms);
        assert forall|i: int| 0 <= i < ms.len() implies lo <= #[trigger] utc_day_number(ms[i].datetime as int) < lo + days.len() by {
            lemma_day_bounds(ms, i);
        }
        lemma_scheduled_count_matches(days, ms, lo, days.len() as int);
        lemma_day_range_all(ms, lo, days.len() as int);
    }
}

/// How a matchup (player 1's character against player 2's) stands: the wins of player 1's
/// character over the most recent `window` matches of the matchup, where there was any
/// such match, and the number of matches of the matchup.
#[derive(Debug, Clone, Copy, PartialEq, Eq, Structural)]
pub struct MatchupCount {
    pub wins: Option<usize>,
    pub matches: usize,
}

/// Whether matches `i` and `j` are of the same matchup.
pub open spec fn same_matchup(ms: Seq<MatchView>, i: int, j: int) -> bool {
    ms[i].players.0.character == ms[j].players.0.character && ms[i].players.1.character == ms[j].players.1.character
}

/// Whether match `j` comes before match `i` when the matchup's matches are listed from
/// the most recent on, equal start times keeping their order.
pub open spec fn comes_before(ms: Seq<MatchView>, j: int, i: int) -> bool {
    same_matchup(ms, i, j) && (ms[j].datetime > ms[i].datetime || (ms[j].datetime == ms[i].datetime && j < i))
}

/// How many of the first `n` matches come before match `i` in its matchup.
pub open spec fn recency_rank(ms: Seq<MatchView>, i: int, n: int) -> nat
    decreases n,
{
    if n <= 0 {
        0
    } else {
        recency_rank(ms, i, n - 1) + if comes_before(ms, n - 1, i) { 1nat } else { 0nat }
    }
}

/// Whether `m` is a match of the matchup `(a, b)`.
pub open spec fn in_matchup(m: MatchView, a: int, b: int) -> bool {
    m.players.0.character.index_spec() == a && m.players.1.character.index_spec() == b
}

/// How many of the first `n` matches are of the matchup `(a, b)`.
pub open spec fn matchup_total(ms: Seq<MatchView>, a: int, b: int, n: int) -> nat
    decreases n,
{
    if n <= 0 {
        0
    } else {
        matchup_total(ms, a, b, n - 1) + if in_matchup(ms[n - 1], a, b) { 1nat } else { 0nat }
    }
}

/// How many of the first `n` matches are wins of player 1's character in the matchup
/// `(a, b)` among the matchup's `window` most recent matches.
pub open spec fn matchup_wins(ms: Seq<MatchView>, a: int, b: int, window: int, n: int) -> nat
    decreases n,
{
    if n <= 0 {
        0
    } else {
        matchup_wins(ms, a, b, window, n - 1) + if in_matchup(ms[n - 1], a, b)
            && recency_rank(ms, n - 1, ms.len() as int) < window && ms[n - 1].players.0.won {
            1nat
        } else {
            0nat
        }
    }
}

/// The standing of the matchup `(a, b)` in `ms`.
pub open spec fn matchup_count_spec(ms: Seq<MatchView>, a: int, b: int, window: int) -> MatchupCount {
    let total = matchup_total(ms, a, b, ms.len() as int);
    MatchupCount {
        wins: if total > 0 && window > 0 { Some(matchup_wins(ms, a, b, window, ms.len() as int) as usize) } else { None },
        matches: total as usize,
    }
}

/// A matchup never has more counted wins than matches, nor more matches than there are.
pub proof fn lemma_counts_bounded(ms: Seq<MatchView>, a: int, b: int, window: int, n: int)
    requires
        0 <= n <= ms.len(),
    ensures
        matchup_wins(ms, a, b, window, n) <= matchup_total(ms, a, b, n) <= n,
    decreases n,
{
    if n > 0 {
        lemma_counts_bounded(ms, a, b, window, n - 1);
    }
}

proof fn lemma_rank_bounded(ms: Seq<MatchView>, i: int, n: int)
    requires
        0 <= n,
    ensures
        recency_rank(ms, i, n) <= n,
    decreases n,
{
    if n > 0 {
        lemma_rank_bounded(ms, i, n - 1);
    }
}

/// The matches of the matchups `(a, 0) .. (a, kb)` among the first `n` matches.
pub open spec fn row_total(ms: Seq<MatchView>, a: int, kb: int, n: int) -> int
    decreases kb,
{
    if kb <= 0 {
        0
    } else {
        row_total(ms, a, kb - 1, n) + matchup_total(ms, a, kb - 1, n)
    }
}

/// The matches of all matchups with player 1's character below `ka` among the first `n`.
pub open spec fn grid_total(ms: Seq<MatchView>, ka: int, n: int) -> int
    decreases ka,
{
    if ka <= 0 {
        0
    } else {
        grid_total(ms, ka - 1, n) + row_total(ms, ka - 1, CHARACTER_COUNT as int, n)
    }
}

proof fn lemma_row_total_step(ms: Seq<MatchView>, a: int, kb: int, n: int)
    requires
        0 < n <= ms.len(),
        0 <= kb,
    ensures
        row_total(ms, a, kb, n) == row_total(ms, a, kb, n - 1)
            + if ms[n - 1].players.0.character.index_spec() == a && ms[n - 1].players.1.character.index_spec() < kb { 1int } else { 0 },
    decreases kb,
{
    if kb > 0 {
        lemma_row_total_step(ms, a, kb - 1, n);
    }
}

proof fn lemma_grid_total_step(ms: Seq<MatchView>, ka: int, n: int)
    requires
        0 < n <= ms.len(),
        0 <= ka,
    ensures
        grid_total(ms, ka, n) == grid_total(ms, ka, n - 1)
            + if ms[n - 1].players.0.character.index_spec() < ka { 1int } else { 0 },
    decreases ka,
{
    if ka > 0 {
        lemma_grid_total_step(ms, ka - 1, n);
        lemma_row_total_step(ms, ka - 1, CHARACTER_COUNT as int, n);
    }
}

proof fn lemma_grid_total_zero(ms: Seq<MatchView>, ka: int)
    ensures
        grid_total(ms, ka, 0) == 0,
    decreases ka,
{
    if ka > 0 {
        lemma_grid_total_zero(ms, ka - 1);
        lemma_row_total_zero(ms, ka - 1, CHARACTER_COUNT as int);
    }
}

proof fn lemma_row_total_zero(ms: Seq<MatchView>, a: int, kb: int)
    ensures
        row_total(ms, a, kb, 0) == 0,
    decreases kb,
{
    if kb > 0 {
        lemma_row_total_zero(ms, a, kb - 1);
    }
}

/// Every match falls in exactly one matchup: the matchups' match counts add up to the
/// number of matches.
pub proof fn lemma_matchups_hold_all(ms: Seq<MatchView>, n: int)
    requires
        0 <= n <= ms.len(),
    ensures
        grid_total(ms, CHARACTER_COUNT as int, n) == n,
    decreases n,
{
    if n == 0 {
        lemma_grid_total_zero(ms, CHARACTER_COUNT as int);
    } else {
        lemma_matchups_hold_all(ms, n - 1);
        lemma_grid_total_step(ms, CHARACTER_COUNT as int, n);
    }
}

/// The matches among the first `n` whose wins `matchup_wins` counts.
pub open spec fn counted_wins(ms: Seq<MatchView>, a: int, b: int, window: int, n: int) -> Set<int> {
    Set::new(|i: int| 0 <= i < n && in_matchup(ms[i], a, b)
        && recency_rank(ms, i, ms.len() as int) < window && ms[i].players.0.won)
}

proof fn lemma_counted_wins_len(ms: Seq<MatchView>, a: int, b: int, window: int, n: int)
    requires
        0 <= n <= ms.len(),
    ensures
        counted_wins(ms, a, b, window, n).finite(),
        counted_wins(ms, a, b, window, n).len() == matchup_wins(ms, a, b, window, n),
    decreases n,
{
    if n == 0 {
        assert(counted_wins(ms, a, b, window, n) =~= Set::<int>::empty());
    } else {
        lemma_counted_wins_len(ms, a, b, window, n - 1);
        let prev = counted_wins(ms, a, b, window, n - 1);
        if in_matchup(ms[n - 1], a, b) && recency_rank(ms, n - 1, ms.len() as int) < window && ms[n - 1].players.0.won {
            assert(counted_wins(ms, a, b, window, n) =~= prev.insert(n - 1));
        } else {
            assert(counted_wins(ms, a, b, window, n) =~= prev);
        }
    }
}

proof fn lemma_rank_grows(ms: Seq<MatchView>, i: int, j: int, n: int)
    requires
        0 <= i < ms.len(),
        0 <= j < ms.len(),
        comes_before(ms, j, i),
        0 <= n,
    ensures
        recency_rank(ms, i, n) >= recency_rank(ms, j, n) + if j < n { 1int } else { 0 },
    decreases n,
{
    if n > 0 {
        lemma_rank_grows(ms, i, j, n - 1);
        let k = n - 1;
        if k < ms.len() && comes_before(ms, k, j) {
            assert(comes_before(ms, k, i));
        }
    }
}

/// Within a matchup no two matches are equally recent.
proof fn lemma_ranks_distinct(ms: Seq<MatchView>, i: int, j: int)
    requires
        0 <= i < ms.len(),
        0 <= j < ms.len(),
        i != j,
        same_matchup(ms, i, j),
    ensures
        recency_rank(ms, i, ms.len() as int) != recency_rank(ms, j, ms.len() as int),
{
    if comes_before(ms, j, i) {
        lemma_rank_grows(ms, i, j, ms.len() as int);
    } else {
        assert(comes_before(ms, i, j));
        lemma_rank_grows(ms, j, i, ms.len() as int);
    }
}

/// A matchup's counted wins never exceed the window: only its `window` most recent
/// matches are looked at.
pub proof fn lemma_wins_within_window(ms: Seq<MatchView>, a: int, b: int, window: int)
    requires
        0 <= window,
    ensures
        matchup_wins(ms, a, b, window, ms.len() as int) <= window,
{
    let n = ms.len() as int;
    let s = counted_wins(ms, a, b, window, n);
    lemma_counted_wins_len(ms, a, b, window, n);
    let f = |i: int| recency_rank(ms, i, n) as int;
    assert forall|i: int, j: int| #[trigger] s.contains(i) && #[trigger] s.contains(j) && f(i) == f(j) implies i == j by {
        if i != j {
            lemma_ranks_distinct(ms, i, j);
        }
    }
    assert(vstd::relations::injective_on(f, s));
    vstd::set_lib::lemma_map_size(s, s.map(f), f);
    vstd::set_lib::lemma_int_range(0, window);
    assert(s.map(f).subset_of(vstd::set_lib::set_int_range(0, window)));
    vstd::set_lib::lemma_len_subset(s.map(f), vstd::set_lib::set_int_range(0, window));
}

proof fn lemma_push_rank_prefix(ms: Seq<MatchView>, m: MatchView, i: int, k: int)
    requires
        0 <= i < ms.len(),
        0 <= k <= ms.len(),
    ensures
        recency_rank(ms.push(m), i, k) == recency_rank(ms, i, k),
    decreases k,
{
    if k > 0 {
        lemma_push_rank_prefix(ms, m, i, k - 1);
        assert(ms.push(m)[k - 1] == ms[k - 1]);
        assert(ms.push(m)[i] == ms[i]);
    }
}

proof fn lemma_push_total_prefix(ms: Seq<MatchView>, m: MatchView, a: int, b: int, k: int)
    requires
        0 <= k <= ms.len(),
    ensures
        matchup_total(ms.push(m), a, b, k) == matchup_total(ms, a, b, k),
    decreases k,
{
    if k > 0 {
        lemma_push_total_prefix(ms, m, a, b, k - 1);
        assert(ms.push(m)[k - 1] == ms[k - 1]);
    }
}

proof fn lemma_push_wins_prefix(ms: Seq<MatchView>, m: MatchView, a: int, b: int, window: int, k: int)
    requires
        0 <= k <= ms.len(),
        !in_matchup(m, a, b),
    ensures
        matchup_wins(ms.push(m), a, b, window, k) == matchup_wins(ms, a, b, window, k),
    decreases k,
{
    if k > 0 {
        lemma_push_wins_prefix(ms, m, a, b, window, k - 1);
        let ms2 = ms.push(m);
        let i = k - 1;
        assert(ms2[i] == ms[i]);
        if in_matchup(ms[i], a, b) {
            lemma_push_rank_prefix(ms, m, i, ms.len() as int);
            assert(!comes_before(ms2, ms.len() as int, i));
            assert(recency_rank(ms2, i, ms2.len() as int) == recency_rank(ms, i, ms.len() as int));
        }
    }
}

/// Each matchup's window is its own: adding a match of another matchup leaves the
/// standing of the matchup `(a, b)` as it was.
pub proof fn lemma_other_matchup_leaves_standing(ms: Seq<MatchView>, m: MatchView, a: int, b: int, window: int)
    requires
        !in_matchup(m, a, b),
    ensures
        matchup_count_spec(ms.push(m), a, b, window) == matchup_count_spec(ms, a, b, window),
{
    let n = ms.len() as int;
    lemma_push_total_prefix(ms, m, a, b, n);
    lemma_push_wins_prefix(ms, m, a, b, window, n);
    assert(ms.push(m)[n] == m);
}

/// A matchup's only match is within any nonempty window: its standing counts that match,
/// and a win of it when player 1 won.
pub proof fn lemma_single_match_standing(m: MatchView, a: int, b: int, window: int)
    requires
        in_matchup(m, a, b),
        window > 0,
    ensures
        matchup_count_spec(seq![m], a, b, window)
            == (MatchupCount { wins: Some(if m.players.0.won { 1usize } else { 0usize }), matches: 1usize }),
{
    let ms = seq![m];
    assert(ms[0] == m);
    assert(recency_rank(ms, 0, 0) == 0);
    assert(!comes_before(ms, 0, 0));
    assert(recency_rank(ms, 0, 1) == 0);
    assert(matchup_total(ms, a, b, 0) == 0);
    assert(matchup_total(ms, a, b, 1) == 1);
    assert(matchup_wins(ms, a, b, window, 0) == 0);
}

/// Within a matchup, a more recent match ranks before an older one, and of two with the
/// same start time the one listed first ranks first: the window takes the most recent
/// matches of the matchup.
pub proof fn lemma_recent_ranks_first(ms: Seq<MatchView>, i: int, j: int)
    requires
        0 <= i < ms.len(),
        0 <= j < ms.len(),
        ms[i].players.0.character == ms[j].players.0.character,
        ms[i].players.1.character == ms[j].players.1.character,
        ms[j].datetime > ms[i].datetime || (ms[j].datetime == ms[i].datetime && j < i),
    ensures
        recency_rank(ms, j, ms.len() as int) < recency_rank(ms, i, ms.len() as int),
{
    lemma_rank_grows(ms, i, j, ms.len() as int);
}

/// How recent match `i` is within its matchup: how many of its matchup's matches come
/// before it.
fn rank_of(matches: &Vec<Match>, i: usize) -> (res: usize)
    requires
        i < matches@.len(),
    ensures
        res == recency_rank(match_views(matches@), i as int, matches@.len() as int),
{
    let ghost ms = match_views(matches@);
    let m = &matches[i];
    assert(ms[i as int] == m@);
    let mut rank: usize = 0;
    let mut j: usize = 0;
    while j < matches.len()
        invariant
            j <= matches@.len(),
            i < matches@.len(),
            ms == match_views(matches@),
            ms[i as int] == m@,
            rank == recency_rank(ms, i as int, j as int),
        decreases matches@.len() - j,
    {
        proof {
            lemma_rank_bounded(ms, i as int, j as int);
        }
        let o = &matches[j];
        assert(ms[j as int] == o@);
        if o.players.0.character == m.players.0.character && o.players.1.character == m.players.1.character
            && (o.datetime > m.datetime || (o.datetime == m.datetime && j < i)) {
            rank = rank + 1;
        }
        j = j + 1;
    }
    rank
}

/// The per-matchup standings (rows: player 1's character, columns: player 2's) of
/// `matches`, counting wins over each matchup's `window` most recent matches; equal start
/// times count in their order in `matches`.
pub fn matchup_counts(matches: &Vec<Match>, window: usize) -> (res: Vec<Vec<MatchupCount>>)
    ensures
        res@.len() == CHARACTER_COUNT,
        forall|a: int| 0 <= a < CHARACTER_COUNT ==> (#[trigger] res@[a])@.len() == CHARACTER_COUNT,
        forall|a: int, b: int| 0 <= a < CHARACTER_COUNT && 0 <= b < CHARACTER_COUNT
            ==> #[trigger] res@[a]@[b] == matchup_count_spec(match_views(matches@), a, b, window as int),
{
    let ghost ms = match_views(matches@);
    let size: usize = CHARACTER_COUNT * CHARACTER_COUNT;
    let mut totals: Vec<usize> = Vec::new();
    let mut wins: Vec<usize> = Vec::new();
    let mut k: usize = 0;
    while k < size
        invariant
            k <= size == CHARACTER_COUNT * CHARACTER_COUNT,
            totals@.len() == k,
            wins@.len() == k,
            forall|j: int| 0 <= j < k ==> #[trigger] totals@[j] == 0,
            forall|j: int| 0 <= j < k ==> #[trigger] wins@[j] == 0,
        decreases size - k,
    {
        totals.push(0);
        wins.push(0);
        k = k + 1;
    }
    let mut i: usize = 0;
    while i < matches.len()
        invariant
            i <= matches@.len(),
            ms == match_views(matches@),
            size == CHARACTER_COUNT * CHARACTER_COUNT,
            totals@.len() == size,
            wins@.len() == size,
            forall|a: int, b: int| 0 <= a < CHARACTER_COUNT && 0 <= b < CHARACTER_COUNT
                ==> #[trigger] totals@[a * 27 + b] == matchup_total(ms, a, b, i as int),
            forall|a: int, b: int| 0 <= a < CHARACTER_COUNT && 0 <= b < CHARACTER_COUNT
                ==> #[trigger] wins@[a * 27 + b] == matchup_wins(ms, a, b, window as int, i as int),
        decreases matches@.len() - i,
    {
        let rank = rank_of(matches, i);
        let m = &matches[i];
        assert(ms[i as int] == m@);
        let a = m.players.0.character.index();
        let b = m.players.1.character.index();
        let slot = a * 27 + b;
        proof {
            lemma_counts_bounded(ms, a as int, b as int, window as int, i as int);
        }
        let t = totals[slot];
        totals.set(slot, t + 1);
        if rank < window && m.players.0.won {
            let w = wins[slot];
            wins.set(slot, w + 1);
        }
        proof {
            assert forall|x: int, y: int| 0 <= x < CHARACTER_COUNT && 0 <= y < CHARACTER_COUNT
                implies #[trigger] totals@[x * 27 + y] == matchup_total(ms, x, y, i + 1) by {
                if x * 27 + y == slot {
                    assert(x == a && y == b) by (nonlinear_arith)
                        requires x * 27 + y == a * 27 + b, 0 <= x < 27, 0 <= y < 27, 0 <= a < 27, 0 <= b < 27;
                } else {
                    assert(!(x == a && y == b));
                }
            }
            assert forall|x: int, y: int| 0 <= x < CHARACTER_COUNT && 0 <= y < CHARACTER_COUNT
                implies #[trigger] wins@[x * 27 + y] == matchup_wins(ms, x, y, window as int, i + 1) by {
                if x * 27 + y == slot {
                    assert(x == a && y == b) by (nonlinear_arith)
                        requires x * 27 + y == a * 27 + b, 0 <= x < 27, 0 <= y < 27, 0 <= a < 27, 0 <= b < 27;
                } else {
                    assert(!(x == a && y == b));
                }
            }
        }
        i = i + 1;
    }
    let mut chart: Vec<Vec<MatchupCount>> = Vec::new();
    let mut a: usize = 0;
    while a < CHARACTER_COUNT
        invariant
            a <= CHARACTER_COUNT,
            ms == match_views(matches@),
            i == ms.len(),
            totals@.len() == size,
            wins@.len() == size,
            size == CHARACTER_COUNT * CHARACTER_COUNT,
            forall|x: int, y: int| 0 <= x < CHARACTER_COUNT && 0 <= y < CHARACTER_COUNT
                ==> #[trigger] totals@[x * 27 + y] == matchup_total(ms, x, y, i as int),
            forall|x: int, y: int| 0 <= x < CHARACTER_COUNT && 0 <= y < CHARACTER_COUNT
                ==> #[trigger] wins@[x * 27 + y] == matchup_wins(ms, x, y, window as int, i as int),
            chart@.len() == a,
            forall|x: int| 0 <= x < a ==> (#[trigger] chart@[x])@.len() == CHARACTER_COUNT,
            forall|x: int, y: int| 0 <= x < a && 0 <= y < CHARACTER_COUNT
                ==> #[trigger] chart@[x]@[y] == matchup_count_spec(ms, x, y, window as int),
        decreases CHARACTER_COUNT - a,
    {
        let mut row: Vec<MatchupCount> = Vec::new();
        let mut b: usize = 0;
        while b < CHARACTER_COUNT
            invariant
                a < CHARACTER_COUNT,
                b <= CHARACTER_COUNT,
                ms == match_views(matches@),
                i == ms.len(),
                totals@.len() == size,
                wins@.len() == size,
                size == CHARACTER_COUNT * CHARACTER_COUNT,
                forall|x: int, y: int| 0 <= x < CHARACTER_COUNT && 0 <= y < CHARACTER_COUNT
                    ==> #[trigger] totals@[x * 27 + y] == matchup_total(ms, x, y, i as int),
                forall|x: int, y: int| 0 <= x < CHARACTER_COUNT && 0 <= y < CHARACTER_COUNT
                    ==> #[trigger] wins@[x * 27 + y] == matchup_wins(ms, x, y, window as int, i as int),
                row@.len() == b,
                forall|y: int| 0 <= y < b ==> #[trigger] row@[y] == matchup_count_spec(ms, a as int, y, window as int),
            decreases CHARACTER_COUNT - b,
        {
            let slot = a * 27 + b;
            let total = totals[slot];
            let w = wins[slot];
            let entry = MatchupCount {
                wins: if total > 0 && window > 0 { Some(w) } else { None },
                matches: total,
            };
            assert(entry == matchup_count_spec(ms, a as int, b as int, window as int));
            row.push(entry);
            b = b + 1;
        }
        chart.push(row);
        a = a + 1;
    }
    chart
}

/// The side that won the last match, as the matchup update names it: `P1`, `P2`, or
/// nothing before any match.
pub fn winner_label(last_match: &Option<Match>) -> (res: &'static str)
    ensures
        res@ == match last_match {
            Some(m) => if m.players.0.won { "P1"@ } else { "P2"@ },
            None => ""@,
        },
{
    match last_match {
        Some(m) => if m.players.0.won { "P1" } else { "P2" },
        None => "",
    }
}

} // verus!

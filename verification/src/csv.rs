use vstd::prelude::*;

use crate::game::{CSSCharacter, EndMethod, Match, MatchView, PlayerInfo, PlayerInfoView, Stage};
use crate::store::{EntryView, MatchStore, insert_entry};
use crate::text::{chars_eq, chars_of, parse_unsigned, parse_unsigned_chars, split_fields, split_on, string_of};
use crate::time::{parse_utc_timestamp, utc_timestamp_of};

verus! {

/// Why a line of the CSV export gives no match.
#[derive(Debug, Clone, Copy, PartialEq, Eq, Structural)]
pub enum CsvError {
    /// The line has fewer fields than the one at this position.
    MissingField(usize),
    /// The start time (field 0) is not an RFC 3339 date-time.
    InvalidDatetime,
    /// The field at this position is not a number of its type.
    InvalidNumber(usize),
    InvalidStage,
    InvalidCharacter,
    InvalidEndMethod,
}

/// The fields of a CSV line.
pub open spec fn csv_fields(line: Seq<char>) -> Seq<Seq<char>> {
    split_fields(line, ',')
}

/// The text `True`.
pub open spec fn text_true() -> Seq<char> {
    seq!['T', 'r', 'u', 'e']
}

/// The text `netplay`.
pub open spec fn text_netplay() -> Seq<char> {
    seq!['n', 'e', 't', 'p', 'l', 'a', 'y']
}

/// The number in field `i` of `f`, as `str::parse` reads a type whose largest value is `max`.
pub open spec fn csv_number(f: Seq<Seq<char>>, i: int, max: int) -> Result<nat, CsvError> {
    match parse_unsigned(f[i], max) {
        Some(v) => Ok(v),
        None => Err(CsvError::InvalidNumber(i as usize)),
    }
}

/// One side of a CSV row: code, port, character, stocks at `base..base + 4`, and whether
/// the player won in field `won_field`. A character that is not a number is an
/// `InvalidNumber`, a number that is no character an `InvalidCharacter`.
pub open spec fn csv_player(f: Seq<Seq<char>>, base: int, won_field: int) -> Result<PlayerInfoView, CsvError> {
    match csv_number(f, base + 1, u8::MAX as int) {
        Err(e) => Err(e),
        Ok(port) => match csv_number(f, base + 2, u16::MAX as int) {
            Err(e) => Err(e),
            Ok(ch) => match CSSCharacter::from_code_spec(ch as u16) {
                None => Err(CsvError::InvalidCharacter),
                Some(character) => match csv_number(f, base + 3, u8::MAX as int) {
                    Err(e) => Err(e),
                    Ok(stocks) => Ok(PlayerInfoView {
                        code: f[base],
                        port: port as u8,
                        character,
                        stocks: stocks as u8,
                        won: f[won_field] == text_true(),
                    }),
                },
            },
        },
    }
}

/// What one line of the CSV export gives (see `csv_line_at_spec`), its start time read
/// by chrono.
pub open spec fn csv_line_spec(line: Seq<char>) -> Result<Option<EntryView>, CsvError> {
    csv_line_at_spec(line, utc_timestamp_of(csv_fields(line)[0]))
}

/// What one line of the CSV export gives, `start` being what its start time (field 0)
/// reads as: nothing for an online game (field 15 `True`)
/// or a netplay game (field 16 `netplay`), otherwise the match and the key it is stored
/// under, `csv_` followed by the start time, or the first reason there is none. Fields:
/// 0 start time, 1 stage, 2-5 and 6-9 the two sides (code, port, character, stocks),
/// 10 end method, 11 LRAS initiator (left empty where it is not a byte), 12 and 13
/// whether each side won, 14 frames.
pub open spec fn csv_line_at_spec(line: Seq<char>, start: Option<i64>) -> Result<Option<EntryView>, CsvError> {
    let f = csv_fields(line);
    if f.len() <= 15 {
        Err(CsvError::MissingField(15))
    } else if f[15] == text_true() {
        Ok(None)
    } else if f.len() <= 16 {
        Err(CsvError::MissingField(16))
    } else if f[16] == text_netplay() {
        Ok(None)
    } else if start is None {
        Err(CsvError::InvalidDatetime)
    } else {
        match csv_number(f, 14, usize::MAX as int) {
            Err(e) => Err(e),
            Ok(frames) => match csv_number(f, 1, u16::MAX as int) {
                Err(e) => Err(e),
                Ok(st) => match Stage::from_code_spec(st as u16) {
                    None => Err(CsvError::InvalidStage),
                    Some(stage) => match csv_player(f, 2, 12) {
                        Err(e) => Err(e),
                        Ok(p0) => match csv_player(f, 6, 13) {
                            Err(e) => Err(e),
                            Ok(p1) => match csv_number(f, 10, u8::MAX as int) {
                                Err(e) => Err(e),
                                Ok(em) => match EndMethod::from_code_spec(em as u8) {
                                    None => Err(CsvError::InvalidEndMethod),
                                    Some(end_method) => Ok(Some((
                                        seq!['c', 's', 'v', '_'] + f[0],
                                        MatchView {
                                            hash: Seq::empty(),
                                            datetime: start->0,
                                            frames: frames as usize,
                                            stage,
                                            players: (p0, p1),
                                            is_online: false,
                                            end_method,
                                            lras_initiator: match parse_unsigned(f[11], u8::MAX as int) {
                                                Some(v) => Some(v as u8),
                                                None => None,
                                            },
                                            ignore: false,
                                        },
                                    ))),
                                },
                            },
                        },
                    },
                },
            },
        }
    }
}

/// The entries that the CSV lines `lines[1..n]` give, the first line being the header,
/// each stored in turn (a later row with the same key replaces an earlier one), or the
/// first line's error.
pub open spec fn csv_entries(lines: Seq<Seq<char>>, n: int) -> Result<Seq<EntryView>, CsvError>
    decreases n,
{
    if n <= 1 {
        Ok(Seq::empty())
    } else {
        match csv_entries(lines, n - 1) {
            Err(e) => Err(e),
            Ok(prev) => match csv_line_spec(lines[n - 1]) {
                Err(e) => Err(e),
                Ok(None) => Ok(prev),
                Ok(Some(entry)) => Ok(insert_entry(prev, entry.0, entry.1)),
            },
        }
    }
}

fn number_field(f: &Vec<Vec<char>>, i: usize, max: u64) -> (res: Result<u64, CsvError>)
    requires
        i < f@.len(),
    ensures
        match res {
            Ok(v) => csv_number(crate::text::char_views(f@), i as int, max as int) == Ok::<nat, CsvError>(v as nat),
            Err(e) => csv_number(crate::text::char_views(f@), i as int, max as int) == Err::<nat, CsvError>(e),
        },
{
    match parse_unsigned_chars(f[i].as_slice(), max) {
        Some(v) => Ok(v),
        None => Err(CsvError::InvalidNumber(i)),
    }
}

fn player_fields(f: &Vec<Vec<char>>, base: usize, won_field: usize) -> (res: Result<PlayerInfo, CsvError>)
    requires
        base <= 6,
        base + 4 <= f@.len(),
        won_field < f@.len(),
    ensures
        match res {
            Ok(p) => csv_player(crate::text::char_views(f@), base as int, won_field as int) == Ok::<PlayerInfoView, CsvError>(p@),
            Err(e) => csv_player(crate::text::char_views(f@), base as int, won_field as int) == Err::<PlayerInfoView, CsvError>(e),
        },
{
    let port = match number_field(f, base + 1, 255) {
        Ok(v) => v,
        Err(e) => return Err(e),
    };
    let ch = match number_field(f, base + 2, 65535) {
        Ok(v) => v,
        Err(e) => return Err(e),
    };
    let character = match CSSCharacter::from_code(ch as u16) {
        Some(c) => c,
        None => return Err(CsvError::InvalidCharacter),
    };
    let stocks = match number_field(f, base + 3, 255) {
        Ok(v) => v,
        Err(e) => return Err(e),
    };
    let true_text: Vec<char> = vec!['T', 'r', 'u', 'e'];
    assert(true_text@ =~= text_true());
    let won = chars_eq(f[won_field].as_slice(), true_text.as_slice());
    Ok(PlayerInfo {
        code: string_of(f[base].as_slice()),
        port: port as u8,
        character,
        stocks: stocks as u8,
        won,
    })
}

/// Reads one line of the CSV export (see `csv_line_spec`).
pub fn parse_csv_line(line: &str) -> (res: Result<Option<(String, Match)>, CsvError>)
    ensures
        match res {
            Ok(Some(entry)) => csv_line_spec(line@) == Ok::<Option<EntryView>, CsvError>(Some((entry.0@, entry.1@))),
            Ok(None) => csv_line_spec(line@) == Ok::<Option<EntryView>, CsvError>(None),
            Err(e) => csv_line_spec(line@) == Err::<Option<EntryView>, CsvError>(e),
        },
{
    let chars = chars_of(line);
    let f = split_on(chars.as_slice(), ',');
    proof {
        crate::text::lemma_split_fields_nonempty(chars@, ',');
    }
    let start_text = string_of(f[0].as_slice());
    let start = parse_utc_timestamp(start_text.as_str());
    csv_line_from_fields(&f, start, Ghost(line@))
}

/// Reads one line of the CSV export, given the timestamp `start` that its start time
/// reads as (see `csv_line_at_spec`).
pub fn parse_csv_line_at(line: &str, start: Option<i64>) -> (res: Result<Option<(String, Match)>, CsvError>)
    ensures
        match res {
            Ok(Some(entry)) => csv_line_at_spec(line@, start) == Ok::<Option<EntryView>, CsvError>(Some((entry.0@, entry.1@))),
            Ok(None) => csv_line_at_spec(line@, start) == Ok::<Option<EntryView>, CsvError>(None),
            Err(e) => csv_line_at_spec(line@, start) == Err::<Option<EntryView>, CsvError>(e),
        },
{
    let chars = chars_of(line);
    let f = split_on(chars.as_slice(), ',');
    csv_line_from_fields(&f, start, Ghost(line@))
}

fn csv_line_from_fields(f: &Vec<Vec<char>>, start: Option<i64>, Ghost(line): Ghost<Seq<char>>) -> (res: Result<Option<(String, Match)>, CsvError>)
    requires
        crate::text::char_views(f@) == csv_fields(line),
    ensures
        match res {
            Ok(Some(entry)) => csv_line_at_spec(line, start) == Ok::<Option<EntryView>, CsvError>(Some((entry.0@, entry.1@))),
            Ok(None) => csv_line_at_spec(line, start) == Ok::<Option<EntryView>, CsvError>(None),
            Err(e) => csv_line_at_spec(line, start) == Err::<Option<EntryView>, CsvError>(e),
        },
{
    if f.len() <= 15 {
        return Err(CsvError::MissingField(15));
    }
    let true_text: Vec<char> = vec!['T', 'r', 'u', 'e'];
    assert(true_text@ =~= text_true());
    if chars_eq(f[15].as_slice(), true_text.as_slice()) {
        return Ok(None);
    }
    if f.len() <= 16 {
        return Err(CsvError::MissingField(16));
    }
    let netplay_text: Vec<char> = vec!['n', 'e', 't', 'p', 'l', 'a', 'y'];
    assert(netplay_text@ =~= text_netplay());
    if chars_eq(f[16].as_slice(), netplay_text.as_slice()) {
        return Ok(None);
    }
    let datetime = match start {
        Some(t) => t,
        None => return Err(CsvError::InvalidDatetime),
    };
    let frames = match number_field(&f, 14, usize::MAX as u64) {
        Ok(v) => v,
        Err(e) => return Err(e),
    };
    let st = match number_field(&f, 1, 65535) {
        Ok(v) => v,
        Err(e) => return Err(e),
    };
    let stage = match Stage::from_code(st as u16) {
        Some(s) => s,
        None => return Err(CsvError::InvalidStage),
    };
    let p0 = match player_fields(&f, 2, 12) {
        Ok(p) => p,
        Err(e) => return Err(e),
    };
    let p1 = match player_fields(&f, 6, 13) {
        Ok(p) => p,
        Err(e) => return Err(e),
    };
    let em = match number_field(&f, 10, 255) {
        Ok(v) => v,
        Err(e) => return Err(e),
    };
    let end_method = match EndMethod::from_code(em as u8) {
        Some(e) => e,
        None => return Err(CsvError::InvalidEndMethod),
    };
    let lras_initiator = match parse_unsigned_chars(f[11].as_slice(), 255) {
        Some(v) => Some(v as u8),
        None => None,
    };
    let mut key_chars: Vec<char> = vec!['c', 's', 'v', '_'];
    let mut i: usize = 0;
    while i < f[0].len()
        invariant
            0 < f@.len(),
            i <= f@[0]@.len(),
            key_chars@ == seq!['c', 's', 'v', '_'] + f@[0]@.take(i as int),
        decreases f@[0]@.len() - i,
    {
        key_chars.push(f[0][i]);
        i = i + 1;
        assert(key_chars@ =~= seq!['c', 's', 'v', '_'] + f@[0]@.take(i as int));
    }
    assert(f@[0]@.take(i as int) =~= f@[0]@);
    let key = string_of(key_chars.as_slice());
    Ok(Some((key, Match {
        hash: String::new(),
        datetime,
        frames: frames as usize,
        stage,
        players: (p0, p1),
        is_online: false,
        end_method,
        lras_initiator,
        ignore: false,
    })))
}

/// The views of a vector of lines.
pub open spec fn line_views(lines: Seq<String>) -> Seq<Seq<char>> {
    lines.map_values(|l: String| l@)
}

/// Reads the matches of a CSV export given as its lines; the first line is a header.
pub fn read_matches_from_csv(lines: &Vec<String>) -> (res: Result<MatchStore, CsvError>)
    ensures
        match res {
            Ok(store) => csv_entries(line_views(lines@), lines@.len() as int) == Ok::<Seq<EntryView>, CsvError>(store@),
            Err(e) => csv_entries(line_views(lines@), lines@.len() as int) == Err::<Seq<EntryView>, CsvError>(e),
        },
{
    let mut store = MatchStore::new();
    let mut i: usize = 1;
    if lines.len() == 0 {
        return Ok(store);
    }
    while i < lines.len()
        invariant
            1 <= i <= lines@.len(),
            csv_entries(line_views(lines@), i as int) == Ok::<Seq<EntryView>, CsvError>(store@),
        decreases lines@.len() - i,
    {
        assert(line_views(lines@)[i as int] == lines@[i as int]@);
        match parse_csv_line(lines[i].as_str()) {
            Err(e) => {
                proof {
                    lemma_csv_entries_err(line_views(lines@), (i + 1) as int, lines@.len() as int);
                }
                return Err(e);
            },
            Ok(None) => {},
            Ok(Some(entry)) => {
                store.insert(entry.0, entry.1);
            },
        }
        i = i + 1;
    }
    Ok(store)
}

proof fn lemma_csv_entries_err(lines: Seq<Seq<char>>, n: int, m: int)
    requires
        n <= m,
        csv_entries(lines, n) is Err,
    ensures
        csv_entries(lines, m) == csv_entries(lines, n),
    decreases m - n,
{
    if n < m {
        lemma_csv_entries_err(lines, n, m - 1);
    }
}

} // verus!

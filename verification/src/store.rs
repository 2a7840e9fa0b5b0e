use vstd::prelude::*;

use crate::game::{EndMethod, Match, MatchView};
use crate::replay::ReplayError;

verus! {

/// An entry of the store as its view: the key's characters and the match.
pub type EntryView = (Seq<char>, MatchView);

/// The position of the first entry with key `k`.
pub open spec fn find_entry(entries: Seq<EntryView>, k: Seq<char>) -> Option<int>
    decreases entries.len(),
{
    if entries.len() == 0 {
        None
    } else {
        match find_entry(entries.drop_last(), k) {
            Some(i) => Some(i),
            None => if entries.last().0 == k { Some(entries.len() - 1) } else { None },
        }
    }
}

/// The match stored under `k`.
pub open spec fn lookup(entries: Seq<EntryView>, k: Seq<char>) -> Option<MatchView> {
    match find_entry(entries, k) {
        Some(i) => Some(entries[i].1),
        None => None,
    }
}

/// No key occurs twice.
pub open spec fn keys_distinct(entries: Seq<EntryView>) -> bool {
    forall|i: int, j: int| 0 <= i < entries.len() && 0 <= j < entries.len() && i != j
        ==> #[trigger] entries[i].0 != #[trigger] entries[j].0
}

/// The entries after storing `v` under `k`: an entry with that key has its match
/// replaced where it stands, otherwise the entry is added at the end.
pub open spec fn insert_entry(entries: Seq<EntryView>, k: Seq<char>, v: MatchView) -> Seq<EntryView> {
    match find_entry(entries, k) {
        Some(i) => entries.update(i, (k, v)),
        None => entries.push((k, v)),
    }
}

/// The matches that the ratings and the matchup chart count: not a placeholder, longer
/// than `min_frames` frames, and with a decided end.
pub open spec fn counts_for_stats(m: MatchView, min_frames: usize) -> bool {
    &&& !m.ignore
    &&& m.frames > min_frames
    &&& m.end_method != EndMethod::Unresolved
    &&& m.end_method != EndMethod::NoContest
}

/// The matches of `entries` that count for the statistics, in store order.
pub open spec fn matches_for_stats(entries: Seq<EntryView>, min_frames: usize) -> Seq<MatchView> {
    entries.map_values(|e: EntryView| e.1).filter(|m: MatchView| counts_for_stats(m, min_frames))
}

/// The views of a vector of matches.
pub open spec fn match_views(v: Seq<Match>) -> Seq<MatchView> {
    v.map_values(|m: Match| m@)
}

/// Appending a match appends its view.
pub proof fn lemma_match_views_push(v: Seq<Match>, m: Match)
    ensures
        match_views(v.push(m)) == match_views(v).push(m@),
{
    assert(match_views(v.push(m)) =~= match_views(v).push(m@));
}

proof fn lemma_values_prefix(entries: Seq<EntryView>, i: int)
    requires
        0 <= i < entries.len(),
    ensures
        entries.take(i + 1).map_values(|e: EntryView| e.1)
            == entries.take(i).map_values(|e: EntryView| e.1).push(entries[i].1),
{
    assert(entries.take(i + 1).map_values(|e: EntryView| e.1)
        =~= entries.take(i).map_values(|e: EntryView| e.1).push(entries[i].1));
}

/// A found entry is in range and has the key; where none is found, no entry has it.
pub proof fn lemma_find_entry_bounds(entries: Seq<EntryView>, k: Seq<char>)
    ensures
        find_entry(entries, k) matches Some(i) ==> 0 <= i < entries.len() && entries[i].0 == k,
        find_entry(entries, k) is None ==> forall|i: int| 0 <= i < entries.len() ==> #[trigger] entries[i].0 != k,
    decreases entries.len(),
{
    if entries.len() > 0 {
        lemma_find_entry_bounds(entries.drop_last(), k);
        assert forall|i: int| 0 <= i < entries.len() - 1 implies #[trigger] entries[i] == entries.drop_last()[i] by {}
    }
}

proof fn lemma_find_entry_distinct(entries: Seq<EntryView>, k: Seq<char>, i: int)
    requires
        keys_distinct(entries),
        0 <= i < entries.len(),
        entries[i].0 == k,
    ensures
        find_entry(entries, k) == Some(i),
{
    lemma_find_entry_bounds(entries, k);
}

/// Storing under a key and then reading that key gives back what was stored; reading
/// any other key gives what it gave before; keys stay distinct.
pub proof fn lemma_insert_lookup(entries: Seq<EntryView>, k: Seq<char>, v: MatchView, other: Seq<char>)
    requires
        keys_distinct(entries),
    ensures
        keys_distinct(insert_entry(entries, k, v)),
        lookup(insert_entry(entries, k, v), k) == Some(v),
        other != k ==> lookup(insert_entry(entries, k, v), other) == lookup(entries, other),
{
    let res = insert_entry(entries, k, v);
    lemma_find_entry_bounds(entries, k);
    lemma_find_entry_bounds(entries, other);
    match find_entry(entries, k) {
        Some(i) => {
            assert(keys_distinct(res));
            lemma_find_entry_distinct(res, k, i);
            if other != k {
                lemma_find_entry_bounds(res, other);
                match find_entry(entries, other) {
                    Some(j) => lemma_find_entry_distinct(res, other, j),
                    None => {},
                }
            }
        },
        None => {
            assert(keys_distinct(res));
            lemma_find_entry_distinct(res, k, entries.len() as int);
            if other != k {
                lemma_find_entry_bounds(res, other);
                match find_entry(entries, other) {
                    Some(j) => lemma_find_entry_distinct(res, other, j),
                    None => {},
                }
            }
        },
    }
}

/// The stored matches, each under the file (or CSV row) it came from, in the order the
/// keys were first stored.
#[derive(Debug)]
pub struct MatchStore {
    entries: Vec<(String, Match)>,
}

impl View for MatchStore {
    type V = Seq<EntryView>;

    closed spec fn view(&self) -> Seq<EntryView> {
        self.entries@.map_values(|e: (String, Match)| (e.0@, e.1@))
    }
}

impl MatchStore {
    #[verifier::type_invariant]
    closed spec fn keys_are_distinct(self) -> bool {
        keys_distinct(self@)
    }

    /// An empty store.
    pub fn new() -> (res: MatchStore)
        ensures
            res@ == Seq::<EntryView>::empty(),
            keys_distinct(res@),
    {
        let res = MatchStore { entries: Vec::new() };
        assert(res@ =~= Seq::<EntryView>::empty());
        res
    }

    /// The number of stored matches.
    pub fn len(&self) -> (res: usize)
        ensures
            res == self@.len(),
            keys_distinct(self@),
    {
        proof {
            use_type_invariant(self);
        }
        self.entries.len()
    }

    /// The position of `key`'s entry.
    fn position(&self, key: &String) -> (res: Option<usize>)
        ensures
            match res {
                Some(i) => find_entry(self@, key@) == Some(i as int) && i < self.entries@.len(),
                None => find_entry(self@, key@) is None,
            },
            self@.len() == self.entries@.len(),
            keys_distinct(self@),
    {
        proof {
            use_type_invariant(self);
        }
        let mut i: usize = 0;
        while i < self.entries.len()
            invariant
                i <= self@.len(),
                self@.len() == self.entries@.len(),
                keys_distinct(self@),
                forall|j: int| 0 <= j < i ==> #[trigger] self@[j].0 != key@,
            decreases self.entries@.len() - i,
        {
            assert(self@[i as int].0 == self.entries@[i as int].0@);
            if self.entries[i].0 == *key {
                proof {
                    lemma_find_entry_distinct(self@, key@, i as int);
                }
                return Some(i);
            }
            i = i + 1;
        }
        proof {
            lemma_find_entry_bounds(self@, key@);
        }
        None
    }

    /// Whether a match is stored under `key`.
    pub fn contains_key(&self, key: &str) -> (res: bool)
        ensures
            res == (lookup(self@, key@) is Some),
            keys_distinct(self@),
    {
        proof {
            use_type_invariant(self);
        }
        let key = key.to_owned();
        self.position(&key).is_some()
    }

    /// The match stored under `key`.
    pub fn get(&self, key: &str) -> (res: Option<&Match>)
        ensures
            match res {
                Some(m) => lookup(self@, key@) == Some(m@),
                None => lookup(self@, key@) is None,
            },
            keys_distinct(self@),
    {
        proof {
            use_type_invariant(self);
        }
        let key = key.to_owned();
        match self.position(&key) {
            Some(i) => Some(&self.entries[i].1),
            None => None,
        }
    }

    /// Stores `m` under `key`, replacing what was stored there.
    pub fn insert(&mut self, key: String, m: Match)
        ensures
            final(self)@ == insert_entry(old(self)@, key@, m@),
            keys_distinct(old(self)@),
            keys_distinct(final(self)@),
    {
        proof {
            use_type_invariant(&*self);
            lemma_insert_lookup(self@, key@, m@, key@);
        }
        let ghost old_view = self@;
        let ghost new_view = insert_entry(self@, key@, m@);
        let ghost kv = key@;
        let ghost mv = m@;
        let pos = self.position(&key);
        let mut entries: Vec<(String, Match)> = Vec::new();
        std::mem::swap(&mut entries, &mut self.entries);
        assert(entries@.map_values(|e: (String, Match)| (e.0@, e.1@)) == old_view);
        match pos {
            Some(i) => {
                entries.set(i, (key, m));
                assert(entries@.map_values(|e: (String, Match)| (e.0@, e.1@)) =~= old_view.update(i as int, (kv, mv)));
            },
            None => {
                entries.push((key, m));
                assert(entries@.map_values(|e: (String, Match)| (e.0@, e.1@)) =~= old_view.push((kv, mv)));
            },
        }
        self.entries = entries;
    }

    /// The stored keys, in store order.
    pub fn keys(&self) -> (res: Vec<String>)
        ensures
            res@.len() == self@.len(),
            forall|i: int| 0 <= i < self@.len() ==> #[trigger] res@[i]@ == self@[i].0,
    {
        let mut out: Vec<String> = Vec::new();
        let mut i: usize = 0;
        while i < self.entries.len()
            invariant
                i <= self@.len(),
                self@.len() == self.entries@.len(),
                out@.len() == i,
                forall|j: int| 0 <= j < i ==> #[trigger] out@[j]@ == self@[j].0,
            decreases self.entries@.len() - i,
        {
            assert(self@[i as int].0 == self.entries@[i as int].0@);
            out.push(self.entries[i].0.clone());
            i = i + 1;
        }
        out
    }

    /// Copies of the stored matches, in store order.
    pub fn values(&self) -> (res: Vec<Match>)
        ensures
            match_views(res@) == self@.map_values(|e: EntryView| e.1),
    {
        let mut out: Vec<Match> = Vec::new();
        let mut i: usize = 0;
        while i < self.entries.len()
            invariant
                i <= self@.len(),
                self@.len() == self.entries@.len(),
                match_views(out@) == self@.take(i as int).map_values(|e: EntryView| e.1),
            decreases self.entries@.len() - i,
        {
            assert(self@[i as int].1 == self.entries@[i as int].1@);
            let m = self.entries[i].1.clone();
            proof {
                lemma_match_views_push(out@, m);
                lemma_values_prefix(self@, i as int);
            }
            out.push(m);
            i = i + 1;
        }
        assert(self@.take(i as int) =~= self@);
        out
    }

    /// The matches that count for the ratings and the matchup chart (see
    /// `counts_for_stats`), in store order.
    pub fn get_values_filtered(&self, min_frames: usize) -> (res: Vec<Match>)
        ensures
            match_views(res@) == matches_for_stats(self@, min_frames),
    {
        let mut out: Vec<Match> = Vec::new();
        let mut i: usize = 0;
        while i < self.entries.len()
            invariant
                i <= self@.len(),
                self@.len() == self.entries@.len(),
                match_views(out@) == matches_for_stats(self@.take(i as int), min_frames),
            decreases self.entries@.len() - i,
        {
            let ghost prefix = self@.take(i as int);
            let ghost next = self@.take(i + 1);
            proof {
                lemma_values_prefix(self@, i as int);
                let vals = prefix.map_values(|e: EntryView| e.1);
                vals.lemma_filter_push(self@[i as int].1, |m: MatchView| counts_for_stats(m, min_frames));
            }
            assert(self@[i as int].1 == self.entries@[i as int].1@);
            let m = &self.entries[i].1;
            let keep = !m.ignore && m.frames > min_frames && m.end_method != EndMethod::Unresolved
                && m.end_method != EndMethod::NoContest;
            if keep {
                let c = m.clone();
                proof {
                    lemma_match_views_push(out@, c);
                }
                out.push(c);
            }
            i = i + 1;
        }
        assert(self@.take(i as int) =~= self@);
        out
    }

    /// The match with the latest start; the one stored last among equals.
    pub fn get_newest_match(&self) -> (res: Match)
        requires
            self@.len() > 0,
        ensures
            exists|i: int| 0 <= i < self@.len() && #[trigger] self@[i].1 == res@
                && (forall|j: int| i < j < self@.len() ==> #[trigger] self@[j].1.datetime < res.datetime),
            forall|j: int| 0 <= j < self@.len() ==> #[trigger] self@[j].1.datetime <= res.datetime,
    {
        let mut best: usize = 0;
        let mut i: usize = 1;
        while i < self.entries.len()
            invariant
                1 <= i <= self@.len(),
                self@.len() == self.entries@.len(),
                best < i,
                forall|j: int| 0 <= j < i ==> #[trigger] self@[j].1.datetime <= self@[best as int].1.datetime,
                forall|j: int| best < j < i ==> #[trigger] self@[j].1.datetime < self@[best as int].1.datetime,
            decreases self.entries@.len() - i,
        {
            assert(self@[i as int].1 == self.entries@[i as int].1@);
            assert(self@[best as int].1 == self.entries@[best as int].1@);
            if self.entries[i].1.datetime >= self.entries[best].1.datetime {
                best = i;
            }
            i = i + 1;
        }
        assert(self@[best as int].1 == self.entries@[best as int].1@);
        self.entries[best].1.clone()
    }

    /// Records what became of the replay `file`: the match it records, or, where it
    /// records none, a placeholder, so that the file is not read again. Gives back the
    /// match where there is one.
    pub fn record_replay(&mut self, file: String, outcome: Result<Match, ReplayError>) -> (res: Option<Match>)
        ensures
            match outcome {
                Ok(m) => final(self)@ == insert_entry(old(self)@, file@, m@) && res == Some(m),
                Err(_) => res is None && exists|p: MatchView| p.is_placeholder()
                    && final(self)@ == insert_entry(old(self)@, file@, p),
            },
    {
        match outcome {
            Ok(m) => {
                self.insert(file, m.clone());
                Some(m)
            },
            Err(_) => {
                let p = Match::default();
                let ghost pv = p@;
                self.insert(file, p);
                assert(pv.is_placeholder());
                None
            },
        }
    }
}

} // verus!

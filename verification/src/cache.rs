//! The two caches of ESI answers: alliance and corporation tickers, whose
//! entries never change once written, and character affiliations, which are
//! reused for an hour.
use vstd::prelude::*;

use crate::eve::Affiliation;
use std::collections::HashMap;

verus! {

broadcast use vstd::std_specs::hash::group_hash_axioms;

/// The ticker map after learning that `id` has ticker `t`: an id that is
/// already known keeps its ticker.
pub open spec fn remembered(m: Map<u64, String>, id: u64, t: String) -> Map<u64, String> {
    if m.contains_key(id) {
        m
    } else {
        m.insert(id, t)
    }
}

/// Once an id has a ticker, learning it again changes nothing: every id
/// keeps the ticker it had at first sight.
pub proof fn lemma_tickers_are_immutable(m: Map<u64, String>, id: u64, t: String, other: u64)
    requires
        m.contains_key(other),
    ensures
        remembered(m, id, t).contains_key(other),
        remembered(m, id, t)[other] == m[other],
{
}

/// A ticker, once learned, is what a later lookup of its id gives, whatever
/// is learned in between.
pub proof fn lemma_first_ticker_wins(m: Map<u64, String>, id: u64, first: String, second: String)
    ensures
        remembered(remembered(m, id, first), id, second)[id] == remembered(m, id, first)[id],
        !m.contains_key(id) ==> remembered(remembered(m, id, first), id, second)[id] == first,
{
}

/// Alliance and corporation tickers by id.
#[derive(Debug)]
pub struct TickerCache {
    alliances: HashMap<u64, String>,
    corporations: HashMap<u64, String>,
}

fn lookup(m: &HashMap<u64, String>, id: u64) -> (res: Option<String>)
    ensures
        res is Some <==> m@.contains_key(id),
        res matches Some(t) ==> t == m@[id],
{
    match m.get(&id) {
        Some(t) => Some(t.clone()),
        None => None,
    }
}

fn learn(m: &mut HashMap<u64, String>, id: u64, ticker: String) -> (res: String)
    ensures
        final(m)@ == remembered(old(m)@, id, ticker),
        res == remembered(old(m)@, id, ticker)[id],
{
    match m.get(&id) {
        Some(t) => t.clone(),
        None => {
            let out = ticker.clone();
            m.insert(id, ticker);
            out
        },
    }
}

impl TickerCache {
    /// The alliance tickers by id.
    pub closed spec fn alliance_map(&self) -> Map<u64, String> {
        self.alliances@
    }

    /// The corporation tickers by id.
    pub closed spec fn corporation_map(&self) -> Map<u64, String> {
        self.corporations@
    }

    /// A cache that holds the given tickers.
    pub fn from_maps(alliances: HashMap<u64, String>, corporations: HashMap<u64, String>) -> (res:
        Self)
        ensures
            res.alliance_map() == alliances@,
            res.corporation_map() == corporations@,
    {
        TickerCache { alliances, corporations }
    }

    /// The known ticker of alliance `id`.
    pub fn alliance_ticker(&self, id: u64) -> (res: Option<String>)
        ensures
            res is Some <==> self.alliance_map().contains_key(id),
            res matches Some(t) ==> t == self.alliance_map()[id],
    {
        lookup(&self.alliances, id)
    }

    /// The known ticker of corporation `id`.
    pub fn corp_ticker(&self, id: u64) -> (res: Option<String>)
        ensures
            res is Some <==> self.corporation_map().contains_key(id),
            res matches Some(t) ==> t == self.corporation_map()[id],
    {
        lookup(&self.corporations, id)
    }

    /// Learns that alliance `id` has `ticker`, unless its ticker is already
    /// known; gives the ticker now on record.
    pub fn remember_alliance(&mut self, id: u64, ticker: String) -> (res: String)
        ensures
            final(self).alliance_map() == remembered(old(self).alliance_map(), id, ticker),
            final(self).corporation_map() == old(self).corporation_map(),
            res == final(self).alliance_map()[id],
    {
        learn(&mut self.alliances, id, ticker)
    }

    /// Learns that corporation `id` has `ticker`, unless its ticker is
    /// already known; gives the ticker now on record.
    pub fn remember_corp(&mut self, id: u64, ticker: String) -> (res: String)
        ensures
            final(self).corporation_map() == remembered(old(self).corporation_map(), id, ticker),
            final(self).alliance_map() == old(self).alliance_map(),
            res == final(self).corporation_map()[id],
    {
        learn(&mut self.corporations, id, ticker)
    }

    /// Copies of both maps, for saving.
    pub fn snapshot(&self) -> (res: (HashMap<u64, String>, HashMap<u64, String>))
        ensures
            res.0@ == self.alliance_map(),
            res.1@ == self.corporation_map(),
    {
        (self.alliances.clone(), self.corporations.clone())
    }
}

/// How long an affiliation is reused, in milliseconds.
pub const AFFILIATION_TTL_MS: u64 = 3_600_000;

/// An answer fetched at `fetched` is still fresh at `now` (milliseconds of a
/// monotonic clock): less than the TTL has elapsed, an elapsed time that
/// would be negative counting as none.
pub open spec fn is_fresh(fetched: u64, now: u64, ttl: u64) -> bool {
    now <= fetched || now - fetched < ttl
}

/// Whether an answer fetched at `fetched` is still fresh at `now`.
pub fn fresh(fetched: u64, now: u64, ttl: u64) -> (res: bool)
    ensures
        res == is_fresh(fetched, now, ttl),
{
    now <= fetched || now - fetched < ttl
}

/// Affiliations by character id, with when each was fetched.
#[derive(Debug)]
pub struct AffiliationMemo {
    entries: HashMap<u64, (Affiliation, u64)>,
}

impl AffiliationMemo {
    /// The affiliations on record, with their fetch times.
    pub closed spec fn records(&self) -> Map<u64, (Affiliation, u64)> {
        self.entries@
    }

    /// No affiliations on record.
    pub fn new() -> (res: Self)
        ensures
            res.records() == Map::<u64, (Affiliation, u64)>::empty(),
    {
        AffiliationMemo { entries: HashMap::new() }
    }

    /// The affiliation of `char_id` on record, if it is fresh at `now`.
    pub fn lookup(&self, char_id: u64, now: u64) -> (res: Option<Affiliation>)
        ensures
            res is Some <==> (self.records().contains_key(char_id) && is_fresh(
                self.records()[char_id].1,
                now,
                AFFILIATION_TTL_MS,
            )),
            res matches Some(a) ==> a == self.records()[char_id].0,
    {
        match self.entries.get(&char_id) {
            Some(e) => {
                if fresh(e.1, now, AFFILIATION_TTL_MS) {
                    Some(e.0)
                } else {
                    None
                }
            },
            None => None,
        }
    }

    /// Records the affiliation of `char_id` fetched at `now`.
    pub fn record(&mut self, char_id: u64, aff: Affiliation, now: u64)
        ensures
            final(self).records() == old(self).records().insert(char_id, (aff, now)),
    {
        self.entries.insert(char_id, (aff, now));
    }
}

/// What was recorded is what a lookup gives back while it is fresh.
pub proof fn lemma_memo_read_after_write(
    m: Map<u64, (Affiliation, u64)>,
    char_id: u64,
    aff: Affiliation,
    at: u64,
    now: u64,
)
    requires
        is_fresh(at, now, AFFILIATION_TTL_MS),
    ensures
        m.insert(char_id, (aff, at)).contains_key(char_id),
        is_fresh(m.insert(char_id, (aff, at))[char_id].1, now, AFFILIATION_TTL_MS),
        m.insert(char_id, (aff, at))[char_id].0 == aff,
{
}

} // verus!

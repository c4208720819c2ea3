//! Resolving variables: the time-to-live cache of fetched bodies, and the
//! decisions around each fetch.
use vstd::prelude::*;
use std::collections::HashMap;
use crate::clock::{ClockReading, date_text, format_date, format_time, format_weekday, time_text, weekday_text};
use crate::json::{extract_json_variable, json_variable_text};
use crate::variables::{BoardVariable, TimeData};

verus! {

broadcast use vstd::std_specs::hash::group_hash_axioms;

/// A fetched body and when it was fetched, in seconds since the epoch.
#[derive(Clone, Debug)]
pub struct CacheEntry {
    pub fetched_at: i64,
    pub value: String,
}

/// Bodies of request variables, keyed by variable id.
#[derive(Debug)]
pub struct VariableCache {
    pub entries: HashMap<u32, CacheEntry>,
}

/// The cached body of variable `id` if it was fetched less than `expiry`
/// seconds before `now`.
pub open spec fn fresh_value(m: Map<u32, CacheEntry>, id: u32, now: i64, expiry: i64) -> Option<Seq<char>> {
    if m.contains_key(id) && now - m[id].fetched_at < expiry {
        Some(m[id].value@)
    } else {
        None
    }
}

/// A body stored at `t0` is served from the cache while less than `expiry`
/// seconds have passed, and not from the time `expiry` seconds have passed.
pub proof fn lemma_cache_ttl(m: Map<u32, CacheEntry>, id: u32, t0: i64, body: String, expiry: i64, now: i64)
    ensures
        fresh_value(m.insert(id, CacheEntry { fetched_at: t0, value: body }), id, now, expiry) == if now
            - t0 < expiry {
            Some(body@)
        } else {
            None
        },
{
}

impl VariableCache {
    pub fn new() -> (r: VariableCache)
        ensures
            r.entries@ == Map::<u32, CacheEntry>::empty(),
    {
        VariableCache { entries: HashMap::new() }
    }

    /// The body of `id` if it is still fresh at `now`.
    pub fn lookup(&self, id: u32, now: i64, expiry: i64) -> (r: Option<String>)
        ensures
            match r {
                Some(s) => fresh_value(self.entries@, id, now, expiry) == Some(s@),
                None => fresh_value(self.entries@, id, now, expiry) is None,
            },
    {
        match self.entries.get(&id) {
            Some(e) => {
                if (now as i128) - (e.fetched_at as i128) < expiry as i128 {
                    Some(e.value.clone())
                } else {
                    None
                }
            },
            None => None,
        }
    }

    /// Records the body of `id` fetched at `now`.
    pub fn store(&mut self, id: u32, now: i64, value: String)
        ensures
            final(self).entries@ == old(self).entries@.insert(id, CacheEntry { fetched_at: now, value }),
    {
        self.entries.insert(id, CacheEntry { fetched_at: now, value });
    }

    /// Forgets every body.
    pub fn clear(&mut self)
        ensures
            final(self).entries@ == Map::<u32, CacheEntry>::empty(),
    {
        self.entries.clear();
    }
}

/// What to do next to resolve a variable.
#[derive(Debug)]
pub enum Step {
    /// The variable's value.
    Text(String),
    /// A value to be read as a number and rounded to the nearest integer,
    /// kept as it is where it is no number.
    RoundNumber(String),
    /// Fetch the request variable at this index, then finish.
    Fetch(usize),
}

/// Index of the first request variable with identifier `id`, if any.
pub open spec fn source_index(vars: Seq<(String, BoardVariable)>, id: u32) -> Option<int> {
    if exists|j: int| 0 <= j < vars.len() && is_source(vars[j].1, id) {
        Some(choose|j: int| 0 <= j < vars.len() && is_source(vars[j].1, id) && forall|k: int| 0 <= k < j ==> !is_source(#[trigger] vars[k].1, id))
    } else {
        None
    }
}

pub open spec fn is_source(v: BoardVariable, id: u32) -> bool {
    match v {
        BoardVariable::URL(i, _, _, _) => i == id,
        _ => false,
    }
}

/// Index of the first request variable with identifier `id`.
pub fn find_source(vars: &Vec<(String, BoardVariable)>, id: u32) -> (r: Option<usize>)
    ensures
        match r {
            Some(j) => j < vars@.len() && is_source(vars@[j as int].1, id) && forall|k: int|
                0 <= k < j ==> !is_source(#[trigger] vars@[k].1, id),
            None => forall|k: int| 0 <= k < vars@.len() ==> !is_source(#[trigger] vars@[k].1, id),
        },
{
    let mut j: usize = 0;
    while j < vars.len()
        invariant
            j <= vars@.len(),
            forall|k: int| 0 <= k < j ==> !is_source(#[trigger] vars@[k].1, id),
        decreases vars@.len() - j,
    {
        let found = match &vars[j].1 {
            BoardVariable::URL(i, _, _, _) => *i == id,
            _ => false,
        };
        if found {
            return Some(j);
        }
        j = j + 1;
    }
    None
}

/// The value of a clock variable at the reading `c`.
pub open spec fn clock_text(t: TimeData, c: ClockReading) -> Seq<char> {
    match t {
        TimeData::Weekday(offset, sub) => weekday_text(c, offset as int, sub),
        TimeData::Time => time_text(c.hour as int, c.minute as int),
        TimeData::Date => date_text(c.month as int, c.day as nat, c.year as nat),
    }
}

/// The value of a clock variable at the reading `clock`.
pub fn clock_value(t: &TimeData, clock: &ClockReading) -> (r: String)
    requires
        clock.wf(),
    ensures
        r@ == clock_text(*t, *clock),
{
    match t {
        TimeData::Weekday(offset, sub) => format_weekday(clock, *offset, *sub),
        TimeData::Time => format_time(clock.hour, clock.minute),
        TimeData::Date => format_date(clock.month, clock.day, clock.year),
    }
}

/// The step for a JSON extractor whose source body is `body`.
pub open spec fn json_step_of(body: Seq<char>, path: Seq<char>, round: bool, sub: crate::variables::Substring, r: Step) -> bool {
    match r {
        Step::Text(s) => !round && s@ == json_variable_text(body, path, sub),
        Step::RoundNumber(s) => round && s@ == json_variable_text(body, path, sub),
        Step::Fetch(_) => false,
    }
}

fn json_result(body: &str, path: &String, round: bool, sub: crate::variables::Substring) -> (r: Step)
    ensures
        json_step_of(body@, path@, round, sub, r),
{
    let v = extract_json_variable(body, path.as_str(), sub);
    if round {
        Step::RoundNumber(v)
    } else {
        Step::Text(v)
    }
}

/// The first step to resolve the variable at `index`. A request variable gives
/// its cached body while fresh, else asks for a fetch of itself. A JSON
/// extractor looks up its source request variable: none gives empty text; a
/// fresh cached body is read at once; else the source is fetched. A clock
/// variable is read from `clock`.
pub fn begin_resolve(
    vars: &Vec<(String, BoardVariable)>,
    index: usize,
    cache: &VariableCache,
    now: i64,
    clock: &ClockReading,
) -> (r: Step)
    requires
        index < vars@.len(),
        clock.wf(),
    ensures
        match vars@[index as int].1 {
            BoardVariable::URL(id, _, expiry, _) => match fresh_value(cache.entries@, id, now, expiry) {
                Some(body) => r is Text && r->Text_0@ == body,
                None => r == Step::Fetch(index),
            },
            BoardVariable::JsonURL(src, path, round, sub) => match source_index(vars@, src) {
                None => r is Text && r->Text_0@.len() == 0,
                Some(j) => match vars@[j].1 {
                    BoardVariable::URL(id, _, expiry, _) => match fresh_value(cache.entries@, id, now, expiry) {
                        Some(body) => json_step_of(body, path@, round, sub, r),
                        None => r == Step::Fetch(j as usize),
                    },
                    _ => false,
                },
            },
            BoardVariable::Time(t) => r is Text && r->Text_0@ == clock_text(t, *clock),
        },
{
    match &vars[index].1 {
        BoardVariable::URL(id, _, expiry, _) => match cache.lookup(*id, now, *expiry) {
            Some(body) => Step::Text(body),
            None => Step::Fetch(index),
        },
        BoardVariable::JsonURL(src, path, round, sub) => {
            let found = find_source(vars, *src);
            proof {
                lemma_source_index(vars@, *src, found);
            }
            match found {
                None => Step::Text(String::new()),
                Some(j) => match &vars[j].1 {
                    BoardVariable::URL(id, _, expiry, _) => match cache.lookup(*id, now, *expiry) {
                        Some(body) => json_result(body.as_str(), path, *round, *sub),
                        None => Step::Fetch(j),
                    },
                    _ => Step::Text(String::new()),
                },
            }
        },
        BoardVariable::Time(t) => Step::Text(clock_value(t, clock)),
    }
}

proof fn lemma_source_index(vars: Seq<(String, BoardVariable)>, id: u32, found: Option<usize>)
    requires
        match found {
            Some(j) => j < vars.len() && is_source(vars[j as int].1, id) && forall|k: int|
                0 <= k < j ==> !is_source(#[trigger] vars[k].1, id),
            None => forall|k: int| 0 <= k < vars.len() ==> !is_source(#[trigger] vars[k].1, id),
        },
    ensures
        match found {
            Some(j) => source_index(vars, id) == Some(j as int),
            None => source_index(vars, id) is None,
        },
{
    match found {
        Some(j) => {
            assert(0 <= j < vars.len() && is_source(vars[j as int].1, id));
            let c = choose|c: int| 0 <= c < vars.len() && is_source(vars[c].1, id) && forall|k: int| 0 <= k < c ==> !is_source(#[trigger] vars[k].1, id);
            if c < j {
                assert(!is_source(vars[c].1, id));
            } else if c > j {
                assert(!is_source(vars[j as int].1, id));
            }
        },
        None => {},
    }
}

/// Finishes resolving the variable at `index` after the request variable at
/// `fetched_index` was fetched at `now`: a body is stored in the cache under that
/// variable's id (a failed fetch leaves the cache as it was), then a request
/// variable gives the body, empty on failure, and a JSON extractor reads it.
pub fn finish_resolve(
    vars: &Vec<(String, BoardVariable)>,
    index: usize,
    fetched_index: usize,
    cache: &mut VariableCache,
    now: i64,
    fetched: Option<String>,
) -> (r: Step)
    requires
        index < vars@.len(),
        fetched_index < vars@.len(),
        vars@[fetched_index as int].1 is URL,
    ensures
        match vars@[fetched_index as int].1 {
            BoardVariable::URL(id, _, _, _) => match fetched {
                Some(body) => final(cache).entries@ == old(cache).entries@.insert(
                    id,
                    CacheEntry { fetched_at: now, value: body },
                ),
                None => final(cache).entries@ == old(cache).entries@,
            },
            _ => false,
        },
        match vars@[index as int].1 {
            BoardVariable::JsonURL(_, path, round, sub) => json_step_of(
                match fetched {
                    Some(b) => b@,
                    None => Seq::empty(),
                },
                path@,
                round,
                sub,
                r,
            ),
            _ => r is Text && r->Text_0@ == match fetched {
                Some(b) => b@,
                None => Seq::<char>::empty(),
            },
        },
{
    let body = match fetched {
        Some(b) => {
            match &vars[fetched_index].1 {
                BoardVariable::URL(id, _, _, _) => {
                    cache.store(*id, now, b.clone());
                },
                _ => {},
            }
            b
        },
        None => String::new(),
    };
    match &vars[index].1 {
        BoardVariable::JsonURL(_, path, round, sub) => json_result(body.as_str(), path, *round, *sub),
        _ => Step::Text(body),
    }
}

} // verus!

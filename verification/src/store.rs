//! The correlation store: per-key counters over fixed, TTL-bound windows.
//! Counting can live in an embedded table, fully verified, or in an external
//! redis service behind trusted wrappers. Window semantics are fixed, not
//! sliding: a new window begins whenever a key is absent, expired or never
//! created.

use vstd::prelude::*;

verus! {

/// The correlation service could not be reached or answered with an error.
/// Aggregation rules fail open on it: the event is treated as no match,
/// counted as a rule error, and evaluation goes on.
#[derive(Debug, PartialEq, Eq, Structural, Clone, Copy)]
pub enum StoreError {
    Unavailable,
}

// ---------------------------------------------------------------------------
// The embedded counter table, fully verified.
// ---------------------------------------------------------------------------

/// One live counter: its key, its count, and the window it counts in.
pub struct CounterEntry {
    pub key: String,
    pub count: i64,
    pub window_start: u64,
    pub window_seconds: u64,
}

/// The model of a counter entry.
pub struct CounterModel {
    pub key: Seq<char>,
    pub count: i64,
    pub window_start: u64,
    pub window_seconds: u64,
}

pub open spec fn entry_model(e: CounterEntry) -> CounterModel {
    CounterModel {
        key: e.key@,
        count: e.count,
        window_start: e.window_start,
        window_seconds: e.window_seconds,
    }
}

pub open spec fn entries_model(s: Seq<CounterEntry>) -> Seq<CounterModel> {
    s.map_values(|e: CounterEntry| entry_model(e))
}

/// A counter is live at `now` while `now` lies inside its window; at the
/// window's end it expires, and the key counts as absent.
pub open spec fn entry_live(e: CounterModel, now: u64) -> bool {
    now < e.window_start + e.window_seconds
}

/// The position of `key` in the table, if present.
pub open spec fn find_key(s: Seq<CounterModel>, key: Seq<char>) -> Option<int>
    decreases s.len(),
{
    if s.len() == 0 {
        None
    } else if s[0].key == key {
        Some(0int)
    } else {
        match find_key(s.drop_first(), key) {
            Some(i) => Some(i + 1),
            None => None,
        }
    }
}

/// Incrementing `key` at `now` with window `window_seconds`: a live counter
/// grows by one (saturating at the greatest count); an expired or absent key
/// starts a fresh window with count one. Yields the new table and the count
/// after the increment.
pub open spec fn local_incr(
    s: Seq<CounterModel>,
    key: Seq<char>,
    window_seconds: u64,
    now: u64,
) -> (Seq<CounterModel>, i64) {
    match find_key(s, key) {
        Some(i) => if entry_live(s[i], now) {
            let c: i64 = if s[i].count == i64::MAX {
                i64::MAX
            } else {
                (s[i].count + 1) as i64
            };
            (
                s.update(
                    i,
                    CounterModel {
                        key,
                        count: c,
                        window_start: s[i].window_start,
                        window_seconds: s[i].window_seconds,
                    },
                ),
                c,
            )
        } else {
            (s.update(i, CounterModel { key, count: 1, window_start: now, window_seconds }), 1)
        },
        None => (s.push(CounterModel { key, count: 1, window_start: now, window_seconds }), 1),
    }
}

/// The current count of `key` at `now`: its live counter's count, else zero.
pub open spec fn local_get(s: Seq<CounterModel>, key: Seq<char>, now: u64) -> i64 {
    match find_key(s, key) {
        Some(i) => if entry_live(s[i], now) {
            s[i].count
        } else {
            0
        },
        None => 0,
    }
}

/// The table after `key` is reset: its counter removed, if it had one.
pub open spec fn local_reset(s: Seq<CounterModel>, key: Seq<char>) -> Seq<CounterModel> {
    match find_key(s, key) {
        Some(i) => s.remove(i),
        None => s,
    }
}

proof fn lemma_find_key_skip(s: Seq<CounterModel>, key: Seq<char>, i: int)
    requires
        0 <= i <= s.len(),
        forall|m: int| 0 <= m < i ==> s[m].key != key,
    ensures
        find_key(s, key) == match find_key(s.skip(i), key) {
            Some(k) => Some(k + i),
            None => None::<int>,
        },
    decreases i,
{
    if i > 0 {
        lemma_find_key_skip(s.drop_first(), key, i - 1);
        assert(s.drop_first().skip(i - 1) =~= s.skip(i));
    } else {
        assert(s.skip(0) =~= s);
    }
}

/// The embedded correlation table: a concurrent-map stand-in for deployments
/// without an external store, keyed by correlation key, with per-key expiry.
pub struct LocalCounters {
    pub entries: Vec<CounterEntry>,
}

impl LocalCounters {
    /// An empty table.
    pub fn new() -> (r: LocalCounters)
        ensures
            entries_model(r.entries@) == Seq::<CounterModel>::empty(),
    {
        let r = LocalCounters { entries: Vec::new() };
        proof {
            assert(entries_model(r.entries@) =~= Seq::<CounterModel>::empty());
        }
        r
    }

    fn find(&self, key: &str) -> (r: Option<usize>)
        ensures
            match r {
                Some(i) => i < self.entries@.len() && find_key(entries_model(self.entries@), key@)
                    == Some(i as int) && entries_model(self.entries@)[i as int].key == key@,
                None => find_key(entries_model(self.entries@), key@) is None,
            },
    {
        let ghost em = entries_model(self.entries@);
        proof {
            assert(forall|j: int|
                0 <= j < self.entries@.len() ==> #[trigger] em[j] == entry_model(
                    self.entries@[j],
                ));
        }
        let n = self.entries.len();
        let mut i: usize = 0;
        while i < n
            invariant
                i <= n,
                n == self.entries@.len(),
                em == entries_model(self.entries@),
                em.len() == n,
                forall|j: int| 0 <= j < n ==> #[trigger] em[j] == entry_model(self.entries@[j]),
                forall|m: int| 0 <= m < i ==> #[trigger] em[m].key != key@,
            decreases n - i,
        {
            if crate::value::str_eq(self.entries[i].key.as_str(), key) {
                proof {
                    lemma_find_key_skip(em, key@, i as int);
                    assert(em.skip(i as int)[0] == em[i as int]);
                }
                return Some(i);
            }
            i = i + 1;
        }
        proof {
            lemma_find_key_skip(em, key@, n as int);
            assert(em.skip(n as int) =~= Seq::<CounterModel>::empty());
        }
        None
    }

    /// Atomic increment-with-window, as `local_incr` says: one step, no
    /// separate read and write.
    pub fn increment(&mut self, key: &str, window_seconds: u64, now: u64) -> (count: i64)
        ensures
            ({
                let (s2, c) = local_incr(
                    entries_model(old(self).entries@),
                    key@,
                    window_seconds,
                    now,
                );
                entries_model(final(self).entries@) == s2 && count == c
            }),
    {
        let ghost em = entries_model(self.entries@);
        match self.find(key) {
            Some(i) => {
                let live: bool = {
                    let e = &self.entries[i];
                    if now < e.window_start {
                        true
                    } else {
                        now - e.window_start < e.window_seconds
                    }
                };
                proof {
                    assert(em[i as int] == entry_model(self.entries@[i as int]));
                }
                if live {
                    let c: i64 = if self.entries[i].count == i64::MAX {
                        i64::MAX
                    } else {
                        self.entries[i].count + 1
                    };
                    let e = &mut self.entries[i];
                    e.count = c;
                    let ghost key2 = e.key@;
                    proof {
                        assert(key2 == key@);
                        assert(entries_model(self.entries@) =~= local_incr(
                            em,
                            key@,
                            window_seconds,
                            now,
                        ).0);
                    }
                    c
                } else {
                    let e = &mut self.entries[i];
                    e.count = 1;
                    e.window_start = now;
                    e.window_seconds = window_seconds;
                    proof {
                        assert(entries_model(self.entries@) =~= local_incr(
                            em,
                            key@,
                            window_seconds,
                            now,
                        ).0);
                    }
                    1
                }
            },
            None => {
                let entry = CounterEntry {
                    key: String::from_str(key),
                    count: 1,
                    window_start: now,
                    window_seconds,
                };
                self.entries.push(entry);
                proof {
                    assert(entries_model(self.entries@) =~= local_incr(
                        em,
                        key@,
                        window_seconds,
                        now,
                    ).0);
                }
                1
            },
        }
    }

    /// The live count of `key` at `now`, as `local_get` says.
    pub fn get_count(&self, key: &str, now: u64) -> (count: i64)
        ensures
            count == local_get(entries_model(self.entries@), key@, now),
    {
        match self.find(key) {
            Some(i) => {
                let e = &self.entries[i];
                proof {
                    assert(entries_model(self.entries@)[i as int] == entry_model(
                        self.entries@[i as int],
                    ));
                }
                let live: bool = if now < e.window_start {
                    true
                } else {
                    now - e.window_start < e.window_seconds
                };
                if live {
                    e.count
                } else {
                    0
                }
            },
            None => 0,
        }
    }

    /// Forgets `key`, as `local_reset` says.
    pub fn reset(&mut self, key: &str)
        ensures
            entries_model(final(self).entries@) == local_reset(
                entries_model(old(self).entries@),
                key@,
            ),
    {
        let ghost em = entries_model(self.entries@);
        match self.find(key) {
            Some(i) => {
                self.entries.remove(i);
                proof {
                    assert(entries_model(self.entries@) =~= em.remove(i as int));
                }
            },
            None => {},
        }
    }
}

// ---------------------------------------------------------------------------
// The external store, behind trusted wrappers.
// ---------------------------------------------------------------------------

#[verifier::external_type_specification]
#[verifier::external_body]
pub struct ExRedisClient(redis::Client);

#[verifier::external_type_specification]
#[verifier::external_body]
pub struct ExRedisError(redis::RedisError);

/// Relies on redis::Client::open: it parses the URL and builds a client
/// without touching the network.
#[verifier::external_body]
fn redis_open(url: &str) -> (r: Result<redis::Client, redis::RedisError>)
{
    redis::Client::open(url)
}

/// Relies on redis::Client::get_connection and redis TypedCommands::get:
/// one GET round trip; what comes back depends on the shared service.
#[verifier::external_body]
fn redis_get(client: &redis::Client, key: &str) -> (r: Result<Option<String>, redis::RedisError>)
{
    let mut conn = client.get_connection()?;
    redis::TypedCommands::get(&mut conn, key)
}

/// Relies on redis::Client::get_connection and redis TypedCommands::set_ex:
/// one SET-with-expiry round trip.
#[verifier::external_body]
fn redis_set_ex(
    client: &redis::Client,
    key: &str,
    value: &str,
    ttl_seconds: u64,
) -> (r: Result<(), redis::RedisError>)
{
    let mut conn = client.get_connection()?;
    redis::TypedCommands::set_ex(&mut conn, key, value, ttl_seconds)
}

/// Relies on redis::Client::get_connection and redis TypedCommands::incr:
/// one atomic INCRBY round trip; the reply is the value after the increment,
/// as the shared service computed it.
#[verifier::external_body]
fn redis_incr(client: &redis::Client, key: &str) -> (r: Result<i64, redis::RedisError>)
{
    let mut conn = client.get_connection()?;
    redis::TypedCommands::incr(&mut conn, key, 1).map(|v| v as i64)
}

/// Relies on redis::Client::get_connection and redis::Script::invoke: the
/// script runs INCR and, for a fresh key, EXPIRE in one atomic step, so the
/// increment and the window creation cannot interleave with another client.
#[verifier::external_body]
fn redis_incr_window(
    client: &redis::Client,
    key: &str,
    window_seconds: u64,
) -> (r: Result<i64, redis::RedisError>)
{
    let mut conn = client.get_connection()?;
    let script = redis::Script::new(
        "local c = redis.call('INCR', KEYS[1]) \
         if c == 1 then redis.call('EXPIRE', KEYS[1], ARGV[1]) end \
         return c",
    );
    script.key(key).arg(window_seconds).invoke::<i64>(&mut conn)
}

/// Relies on redis::Client::get_connection and redis TypedCommands::del:
/// one DEL round trip.
#[verifier::external_body]
fn redis_del(client: &redis::Client, key: &str) -> (r: Result<(), redis::RedisError>)
{
    let mut conn = client.get_connection()?;
    redis::TypedCommands::del(&mut conn, key).map(|_| ())
}

/// A handle on the external, linearizable-per-key counter service. Every
/// operation is one bounded round trip; an unreachable service surfaces as
/// `StoreError::Unavailable`, never as a hang or a panic.
pub struct StateStore {
    client: redis::Client,
}

impl StateStore {
    /// Builds a handle from a redis URL; the URL must parse.
    pub fn new(redis_url: &str) -> (r: Result<StateStore, StoreError>) {
        match redis_open(redis_url) {
            Ok(client) => Ok(StateStore { client }),
            Err(_) => Err(StoreError::Unavailable),
        }
    }

    /// Reads a key's value.
    pub fn get(&self, key: &str) -> (r: Result<Option<String>, StoreError>) {
        match redis_get(&self.client, key) {
            Ok(v) => Ok(v),
            Err(_) => Err(StoreError::Unavailable),
        }
    }

    /// Writes a key with a time to live.
    pub fn set(&self, key: &str, value: &str, ttl_seconds: u64) -> (r: Result<(), StoreError>) {
        match redis_set_ex(&self.client, key, value, ttl_seconds) {
            Ok(()) => Ok(()),
            Err(_) => Err(StoreError::Unavailable),
        }
    }

    /// Atomically increments a key, creating it at one.
    pub fn increment(&self, key: &str) -> (r: Result<i64, StoreError>) {
        match redis_incr(&self.client, key) {
            Ok(c) => Ok(c),
            Err(_) => Err(StoreError::Unavailable),
        }
    }

    /// Reads a key's count; an absent key counts zero.
    pub fn get_count(&self, key: &str) -> (r: Result<i64, StoreError>) {
        match redis_get(&self.client, key) {
            Ok(Some(text)) => {
                match parse_i64(text.as_str()) {
                    Some(n) => Ok(n),
                    None => Ok(0),
                }
            },
            Ok(None) => Ok(0),
            Err(_) => Err(StoreError::Unavailable),
        }
    }

    /// Atomically increments a key and, on first increment, starts its
    /// window: the key expires `window_seconds` after it was created.
    pub fn increment_windowed(&self, key: &str, window_seconds: u64) -> (r: Result<
        i64,
        StoreError,
    >) {
        match redis_incr_window(&self.client, key, window_seconds) {
            Ok(c) => Ok(c),
            Err(_) => Err(StoreError::Unavailable),
        }
    }

    /// Removes a key.
    pub fn reset(&self, key: &str) -> (r: Result<(), StoreError>) {
        match redis_del(&self.client, key) {
            Ok(()) => Ok(()),
            Err(_) => Err(StoreError::Unavailable),
        }
    }
}

/// The numeral value of a decimal text, if it is one: an optional minus
/// sign, then digits, fitting an `i64`.
pub open spec fn spec_parse_i64(s: Seq<char>) -> Option<i64> {
    if s.len() > 0 && s[0] == '-' {
        match spec_parse_u64_digits(s.drop_first()) {
            Some(n) => if n <= 0x8000_0000_0000_0000u64 {
                Some((-(n as int)) as i64)
            } else {
                None
            },
            None => None,
        }
    } else {
        match spec_parse_u64_digits(s) {
            Some(n) => if n <= i64::MAX as u64 {
                Some(n as i64)
            } else {
                None
            },
            None => None,
        }
    }
}

/// The value of a non-empty digit string, while it fits a `u64`.
pub open spec fn spec_parse_u64_digits(s: Seq<char>) -> Option<u64>
    decreases s.len(),
{
    if s.len() == 0 {
        None
    } else if !('0' <= s.last() <= '9') {
        None
    } else if s.len() == 1 {
        Some((s.last() as u64 - 48) as u64)
    } else {
        match spec_parse_u64_digits(s.drop_last()) {
            Some(h) => if h * 10 + (s.last() as int - 48) <= u64::MAX {
                Some((h * 10 + (s.last() as u64 - 48)) as u64)
            } else {
                None
            },
            None => None,
        }
    }
}

/// Parses a decimal text as `spec_parse_i64` says.
pub fn parse_i64(s: &str) -> (r: Option<i64>)
    ensures
        r == spec_parse_i64(s@),
{
    let n = s.unicode_len();
    let neg: bool = n > 0 && s.get_char(0) == '-';
    let start: usize = if neg {
        1
    } else {
        0
    };
    let mut i: usize = start;
    let mut acc: u64 = 0;
    let ghost digits = if neg {
        s@.drop_first()
    } else {
        s@
    };
    proof {
        if neg {
            assert(s@.drop_first() =~= s@.skip(1));
        }
        assert(digits.subrange(0, 0) =~= Seq::<char>::empty());
    }
    if n == start {
        assert(spec_parse_u64_digits(digits) is None);
        return None;
    }
    while i < n
        invariant
            start <= i <= n,
            n == s@.len(),
            start == (if neg { 1int } else { 0int }),
            neg == (s@.len() > 0 && s@[0] == '-'),
            neg ==> digits =~= s@.skip(1),
            !neg ==> digits == s@,
            digits.len() == n - start,
            n > start,
            i > start ==> spec_parse_u64_digits(digits.subrange(0, i - start)) == Some(acc),
            i == start ==> acc == 0,
        decreases n - i,
    {
        let c = s.get_char(i);
        if !('0' <= c && c <= '9') {
            proof {
                assert(digits[i - start] == s@[i as int]);
                lemma_parse_digits_bad(digits, i - start);
                assert(digits.subrange(0, digits.len() as int) =~= digits);
                if neg {
                    assert(s@.drop_first() =~= digits);
                }
            }
            return None;
        }
        let d: u64 = (c as u64) - 48;
        if acc > (u64::MAX - d) / 10 {
            proof {
                assert(digits[i - start] == s@[i as int]);
                assert(acc * 10 + d > u64::MAX) by (nonlinear_arith)
                    requires
                        acc > (u64::MAX - d) / 10,
                        d <= 9,
                ;
                lemma_parse_digits_overflow(digits, i - start, acc, d);
                assert(digits.subrange(0, digits.len() as int) =~= digits);
                if neg {
                    assert(s@.drop_first() =~= digits);
                }
            }
            return None;
        }
        let ghost pre = acc;
        acc = acc * 10 + d;
        proof {
            let k = i - start;
            assert(digits[k] == s@[i as int]);
            assert(digits.subrange(0, k + 1).last() == digits[k]);
            assert(digits.subrange(0, k + 1).drop_last() =~= digits.subrange(0, k));
            if k == 0 {
                assert(spec_parse_u64_digits(digits.subrange(0, 1)) == Some(acc));
            }
        }
        i = i + 1;
    }
    proof {
        assert(digits.subrange(0, n - start) =~= digits);
        if neg {
            assert(s@.drop_first() =~= digits);
        }
    }
    if neg {
        if acc > 0x8000_0000_0000_0000u64 {
            return None;
        }
        if acc == 0x8000_0000_0000_0000u64 {
            return Some(i64::MIN);
        }
        Some(-(acc as i64))
    } else {
        if acc > i64::MAX as u64 {
            return None;
        }
        Some(acc as i64)
    }
}

proof fn lemma_parse_digits_bad(digits: Seq<char>, k: int)
    requires
        0 <= k < digits.len(),
        !('0' <= digits[k] <= '9'),
    ensures
        spec_parse_u64_digits(digits.subrange(0, digits.len() as int)) is None,
    decreases digits.len() - k,
{
    let whole = digits.subrange(0, digits.len() as int);
    assert(whole =~= digits);
    lemma_parse_digits_bad_aux(digits, k, digits.len() as int);
}

proof fn lemma_parse_digits_bad_aux(digits: Seq<char>, k: int, m: int)
    requires
        0 <= k < m <= digits.len(),
        !('0' <= digits[k] <= '9'),
    ensures
        spec_parse_u64_digits(digits.subrange(0, m)) is None,
    decreases m,
{
    let pre = digits.subrange(0, m);
    if k == m - 1 {
        assert(pre.last() == digits[k]);
    } else {
        lemma_parse_digits_bad_aux(digits, k, m - 1);
        assert(pre.drop_last() =~= digits.subrange(0, m - 1));
        if '0' <= pre.last() <= '9' && pre.len() > 1 {
        }
    }
}

proof fn lemma_parse_digits_overflow(digits: Seq<char>, k: int, acc: u64, d: u64)
    requires
        0 < k < digits.len(),
        spec_parse_u64_digits(digits.subrange(0, k)) == Some(acc),
        '0' <= digits[k] <= '9',
        d == digits[k] as int - 48,
        acc * 10 + d > u64::MAX,
    ensures
        spec_parse_u64_digits(digits.subrange(0, digits.len() as int)) is None,
{
    lemma_parse_digits_overflow_aux(digits, k, acc, d, digits.len() as int);
}

proof fn lemma_parse_digits_overflow_aux(digits: Seq<char>, k: int, acc: u64, d: u64, m: int)
    requires
        0 < k < m <= digits.len(),
        spec_parse_u64_digits(digits.subrange(0, k)) == Some(acc),
        '0' <= digits[k] <= '9',
        d == digits[k] as int - 48,
        acc * 10 + d > u64::MAX,
    ensures
        spec_parse_u64_digits(digits.subrange(0, m)) is None,
    decreases m,
{
    let pre = digits.subrange(0, m);
    if m == k + 1 {
        assert(pre.last() == digits[k]);
        assert(pre.drop_last() =~= digits.subrange(0, k));
    } else {
        lemma_parse_digits_overflow_aux(digits, k, acc, d, m - 1);
        assert(pre.drop_last() =~= digits.subrange(0, m - 1));
    }
}

// ---------------------------------------------------------------------------
// One store for the evaluator: embedded or external.
// ---------------------------------------------------------------------------

/// The correlation store the evaluator counts in: the embedded verified
/// table, or the external service.
pub enum CorrelationStore {
    Local(LocalCounters),
    Remote(StateStore),
}

impl CorrelationStore {
    /// One atomic increment-with-window round trip. On the embedded table
    /// the outcome is exactly `local_incr`; on the external service the
    /// reply, whatever the shared state made it, or the failure is passed
    /// through, and the handle itself does not change.
    pub fn increment_windowed(self, key: &str, window_seconds: u64, now: u64) -> (r: (
        CorrelationStore,
        Result<i64, StoreError>,
    ))
        ensures
            self matches CorrelationStore::Local(lc) ==> ({
                let (s2, c) = local_incr(entries_model(lc.entries@), key@, window_seconds, now);
                &&& r.0 matches CorrelationStore::Local(lc2) && entries_model(lc2.entries@) == s2
                &&& r.1 == Ok::<i64, StoreError>(c)
            }),
            self is Remote ==> r.0 == self,
    {
        match self {
            CorrelationStore::Local(mut lc) => {
                let c = lc.increment(key, window_seconds, now);
                (CorrelationStore::Local(lc), Ok(c))
            },
            CorrelationStore::Remote(st) => {
                let res = st.increment_windowed(key, window_seconds);
                (CorrelationStore::Remote(st), res)
            },
        }
    }
}

} // verus!

//! The decision core of the collection agent's loops: which paths the
//! file-integrity monitor excludes, how its hash cache moves on a change,
//! which processes count as started or stopped between two listings, when
//! the uploader flushes its batch, and how interface totals sum. The loops
//! themselves — watching the file system, polling processes, sending
//! batches — stay with the embedding program and hand plain values in.

use vstd::prelude::*;
use crate::config::{FimConfig, FimPath};
use crate::metrics::sat_add;
use crate::text::contains_seq;
use crate::value::str_eq;

verus! {

/// A file change the integrity monitor reports.
#[derive(Debug, PartialEq)]
pub struct FimEvent {
    pub id: String,
    pub timestamp: String,
    pub event_type: String,
    pub path: String,
    pub action: String,
    pub hash_before: Option<String>,
    pub hash_after: Option<String>,
    pub size: Option<u64>,
}

/// Summed interface counters of one sample.
#[derive(Debug, PartialEq, Eq, Structural, Clone, Copy)]
pub struct NetworkMetrics {
    pub bytes_sent: u64,
    pub bytes_received: u64,
    pub packets_sent: u64,
    pub packets_received: u64,
}

// ---------------------------------------------------------------------------
// Path exclusion.
// ---------------------------------------------------------------------------

/// Whether any exclude pattern of any monitored path occurs in `path`.
pub open spec fn fim_excluded(paths: Seq<FimPath>, path: Seq<char>) -> bool {
    exists|i: int, j: int|
        0 <= i < paths.len() && 0 <= j < paths[i].exclude@.len() && contains_seq(
            path,
            #[trigger] paths[i].exclude@[j]@,
        )
}

/// Whether the integrity monitor leaves `path` alone, as `fim_excluded`
/// says.
pub fn should_exclude(path: &str, config: &FimConfig) -> (r: bool)
    ensures
        r == fim_excluded(config.paths@, path@),
{
    let n = config.paths.len();
    let mut i: usize = 0;
    while i < n
        invariant
            i <= n,
            n == config.paths@.len(),
            forall|a: int, b: int|
                0 <= a < i && 0 <= b < config.paths@[a].exclude@.len() ==> !contains_seq(
                    path@,
                    #[trigger] config.paths@[a].exclude@[b]@,
                ),
        decreases n - i,
    {
        let pats = &config.paths[i].exclude;
        let m = pats.len();
        let mut j: usize = 0;
        while j < m
            invariant
                i < n,
                n == config.paths@.len(),
                j <= m,
                m == config.paths@[i as int].exclude@.len(),
                pats == &config.paths@[i as int].exclude,
                forall|b: int|
                    0 <= b < j ==> !contains_seq(
                        path@,
                        #[trigger] config.paths@[i as int].exclude@[b]@,
                    ),
            decreases m - j,
        {
            if crate::text::str_contains(path, pats[j].as_str()) {
                return true;
            }
            j = j + 1;
        }
        i = i + 1;
    }
    false
}

// ---------------------------------------------------------------------------
// The integrity monitor's hash cache: path to last known digest.
// ---------------------------------------------------------------------------

pub open spec fn cache_model(s: Seq<(String, String)>) -> Seq<(Seq<char>, Seq<char>)> {
    s.map_values(|p: (String, String)| (p.0@, p.1@))
}

/// The position of `key`'s first binding, if any.
pub open spec fn cache_find(s: Seq<(Seq<char>, Seq<char>)>, key: Seq<char>) -> Option<int>
    decreases s.len(),
{
    if s.len() == 0 {
        None
    } else if s[0].0 == key {
        Some(0int)
    } else {
        match cache_find(s.drop_first(), key) {
            Some(i) => Some(i + 1),
            None => None,
        }
    }
}

/// The first binding of `key`, if any.
pub open spec fn cache_get(s: Seq<(Seq<char>, Seq<char>)>, key: Seq<char>) -> Option<Seq<char>> {
    match cache_find(s, key) {
        Some(i) => Some(s[i].1),
        None => None,
    }
}

/// The cache after the change: the path rebound to the new digest, or its
/// binding dropped where the file is gone.
pub open spec fn cache_after(
    s: Seq<(Seq<char>, Seq<char>)>,
    key: Seq<char>,
    new_hash: Option<Seq<char>>,
) -> Seq<(Seq<char>, Seq<char>)> {
    match cache_find(s, key) {
        Some(i) => match new_hash {
            Some(h) => s.update(i, (key, h)),
            None => s.remove(i),
        },
        None => match new_hash {
            Some(h) => s.push((key, h)),
            None => s,
        },
    }
}

proof fn lemma_cache_find_skip(s: Seq<(Seq<char>, Seq<char>)>, key: Seq<char>, i: int)
    requires
        0 <= i <= s.len(),
        forall|m: int| 0 <= m < i ==> s[m].0 != key,
    ensures
        cache_find(s, key) == match cache_find(s.skip(i), key) {
            Some(k) => Some(k + i),
            None => None::<int>,
        },
    decreases i,
{
    if i > 0 {
        lemma_cache_find_skip(s.drop_first(), key, i - 1);
        assert(s.drop_first().skip(i - 1) =~= s.skip(i));
    } else {
        assert(s.skip(0) =~= s);
    }
}

/// Applies one file change to the hash cache: rebinds or drops the path's
/// digest as `cache_after` says, and hands back the digest the cache held
/// before, as `cache_get` says.
pub fn record_fs_change(
    cache: &mut Vec<(String, String)>,
    path: &str,
    new_hash: Option<String>,
) -> (before: Option<String>)
    ensures
        cache_model(final(cache)@) == cache_after(
            cache_model(old(cache)@),
            path@,
            match new_hash {
                Some(h) => Some(h@),
                None => None,
            },
        ),
        match before {
            Some(h) => cache_get(cache_model(old(cache)@), path@) == Some(h@),
            None => cache_get(cache_model(old(cache)@), path@) is None,
        },
{
    let ghost cm = cache_model(cache@);
    proof {
        assert(forall|j: int|
            0 <= j < cache@.len() ==> #[trigger] cm[j] == (cache@[j].0@, cache@[j].1@));
    }
    let n = cache.len();
    let mut i: usize = 0;
    while i < n
        invariant
            i <= n,
            n == cache@.len(),
            cache@ == old(cache)@,
            cm == cache_model(cache@),
            cm.len() == n,
            forall|j: int| 0 <= j < n ==> #[trigger] cm[j] == (cache@[j].0@, cache@[j].1@),
            forall|m: int| 0 <= m < i ==> #[trigger] cm[m].0 != path@,
        decreases n - i,
    {
        if str_eq(cache[i].0.as_str(), path) {
            proof {
                lemma_cache_find_skip(cm, path@, i as int);
                assert(cm.skip(i as int)[0] == cm[i as int]);
            }
            let before = Some(cache[i].1.clone());
            match new_hash {
                Some(h) => {
                    let ghost hv = h@;
                    let fresh = (String::from_str(path), h);
                    cache[i] = fresh;
                    proof {
                        assert(cache@[i as int].0@ == path@);
                        assert(cache@[i as int].1@ == hv);
                        assert(cache_model(cache@) =~= cm.update(i as int, (path@, hv)));
                    }
                },
                None => {
                    cache.remove(i);
                    proof {
                        assert(cache_model(cache@) =~= cm.remove(i as int));
                    }
                },
            }
            return before;
        }
        i = i + 1;
    }
    proof {
        lemma_cache_find_skip(cm, path@, n as int);
        assert(cm.skip(n as int) =~= Seq::<(Seq<char>, Seq<char>)>::empty());
    }
    match new_hash {
        Some(h) => {
            cache.push((String::from_str(path), h));
            proof {
                assert(cache_model(cache@) =~= cm.push((path@, cache@.last().1@)));
            }
        },
        None => {},
    }
    None
}

// ---------------------------------------------------------------------------
// Process listings: who started, who stopped.
// ---------------------------------------------------------------------------

/// Whether `pid` occurs in the listing.
pub open spec fn has_pid(s: Seq<(u32, Seq<char>)>, pid: u32) -> bool {
    exists|i: int| 0 <= i < s.len() && s[i].0 == pid
}

pub open spec fn procs_model(s: Seq<(u32, String)>) -> Seq<(u32, Seq<char>)> {
    s.map_values(|p: (u32, String)| (p.0, p.1@))
}

/// The entries of `cur` whose pid is absent from `other`, in order.
pub open spec fn procs_not_in(cur: Seq<(u32, Seq<char>)>, other: Seq<(u32, Seq<char>)>) -> Seq<
    (u32, Seq<char>),
>
    decreases cur.len(),
{
    if cur.len() == 0 {
        Seq::empty()
    } else if !has_pid(other, cur[0].0) {
        seq![cur[0]] + procs_not_in(cur.drop_first(), other)
    } else {
        procs_not_in(cur.drop_first(), other)
    }
}

fn listing_has_pid(s: &Vec<(u32, String)>, pid: u32) -> (r: bool)
    ensures
        r == has_pid(procs_model(s@), pid),
{
    let n = s.len();
    let mut i: usize = 0;
    proof {
        assert(forall|j: int|
            0 <= j < n ==> #[trigger] procs_model(s@)[j] == (s@[j].0, s@[j].1@));
    }
    while i < n
        invariant
            i <= n,
            n == s@.len(),
            procs_model(s@).len() == n,
            forall|j: int| 0 <= j < n ==> #[trigger] procs_model(s@)[j] == (s@[j].0, s@[j].1@),
            forall|m: int| 0 <= m < i ==> procs_model(s@)[m].0 != pid,
        decreases n - i,
    {
        if s[i].0 == pid {
            assert(procs_model(s@)[i as int].0 == pid);
            return true;
        }
        i = i + 1;
    }
    false
}

/// The processes of `current` that `known` lacks: what just started when
/// `known` is the last listing, what just stopped when the arguments swap.
pub fn diff_processes(current: &Vec<(u32, String)>, known: &Vec<(u32, String)>) -> (out: Vec<
    (u32, String),
>)
    ensures
        procs_model(out@) == procs_not_in(procs_model(current@), procs_model(known@)),
{
    let ghost curm = procs_model(current@);
    let ghost knm = procs_model(known@);
    let n = current.len();
    let mut out: Vec<(u32, String)> = Vec::new();
    let mut i: usize = 0;
    proof {
        assert(forall|j: int|
            0 <= j < n ==> #[trigger] curm[j] == (current@[j].0, current@[j].1@));
        assert(curm.skip(0) =~= curm);
        assert(procs_model(out@) =~= Seq::<(u32, Seq<char>)>::empty());
    }
    while i < n
        invariant
            i <= n,
            n == current@.len(),
            curm == procs_model(current@),
            knm == procs_model(known@),
            curm.len() == n,
            forall|j: int| 0 <= j < n ==> #[trigger] curm[j] == (current@[j].0, current@[j].1@),
            procs_not_in(curm, knm) == procs_model(out@) + procs_not_in(curm.skip(i as int), knm),
        decreases n - i,
    {
        proof {
            assert(curm.skip(i as int)[0] == curm[i as int]);
            assert(curm.skip(i as int).drop_first() =~= curm.skip(i + 1));
        }
        let ghost pre = out@;
        if !listing_has_pid(known, current[i].0) {
            out.push((current[i].0, current[i].1.clone()));
            proof {
                assert(procs_model(out@) =~= procs_model(pre) + seq![curm[i as int]]);
                assert(procs_model(out@) + procs_not_in(curm.skip(i + 1), knm) =~= procs_model(pre)
                    + procs_not_in(curm.skip(i as int), knm));
            }
        }
        i = i + 1;
    }
    proof {
        assert(curm.skip(n as int) =~= Seq::<(u32, Seq<char>)>::empty());
        assert(procs_model(out@) + Seq::<(u32, Seq<char>)>::empty() =~= procs_model(out@));
    }
    out
}

// ---------------------------------------------------------------------------
// The uploader's batching and the telemetry sums.
// ---------------------------------------------------------------------------

/// When the uploader sends what it has: the batch reached its size, or the
/// flush interval elapsed with something pending.
pub fn should_flush(batch_len: usize, batch_size: usize, elapsed_secs: u64, flush_interval: u64) -> (
    r: bool)
    ensures
        r == (batch_len >= batch_size || (elapsed_secs >= flush_interval && batch_len > 0)),
{
    batch_len >= batch_size || (elapsed_secs >= flush_interval && batch_len > 0)
}

/// The saturating sum of the counters, in listing order.
pub open spec fn sum_sat(s: Seq<u64>) -> u64
    decreases s.len(),
{
    if s.len() == 0 {
        0
    } else {
        sat_add(sum_sat(s.drop_last()), s.last() as nat)
    }
}

fn sum_column(s: &Vec<(u64, u64, u64, u64)>, col: usize) -> (r: u64)
    requires
        col < 4,
    ensures
        r == sum_sat(
            s@.map_values(
                |p: (u64, u64, u64, u64)|
                    if col == 0 {
                        p.0
                    } else if col == 1 {
                        p.1
                    } else if col == 2 {
                        p.2
                    } else {
                        p.3
                    },
            ),
        ),
{
    let ghost cols = s@.map_values(
        |p: (u64, u64, u64, u64)|
            if col == 0 {
                p.0
            } else if col == 1 {
                p.1
            } else if col == 2 {
                p.2
            } else {
                p.3
            },
    );
    let n = s.len();
    let mut acc: u64 = 0;
    let mut i: usize = 0;
    proof {
        assert(cols.take(0) =~= Seq::<u64>::empty());
    }
    while i < n
        invariant
            i <= n,
            n == s@.len(),
            col < 4,
            cols == s@.map_values(
                |p: (u64, u64, u64, u64)|
                    if col == 0 {
                        p.0
                    } else if col == 1 {
                        p.1
                    } else if col == 2 {
                        p.2
                    } else {
                        p.3
                    },
            ),
            cols.len() == n,
            acc == sum_sat(cols.take(i as int)),
        decreases n - i,
    {
        let x: u64 = if col == 0 {
            s[i].0
        } else if col == 1 {
            s[i].1
        } else if col == 2 {
            s[i].2
        } else {
            s[i].3
        };
        proof {
            assert(cols[i as int] == x);
            assert(cols.take(i + 1).drop_last() =~= cols.take(i as int));
            assert(cols.take(i + 1).last() == cols[i as int]);
        }
        if x > u64::MAX - acc {
            acc = u64::MAX;
        } else {
            acc = acc + x;
        }
        i = i + 1;
    }
    proof {
        assert(cols.take(n as int) =~= cols);
    }
    acc
}

/// Sums each interface's (bytes sent, bytes received, packets sent, packets
/// received) into one sample, every sum saturating.
pub fn collect_network_metrics(interfaces: &Vec<(u64, u64, u64, u64)>) -> (r: NetworkMetrics)
    ensures
        r.bytes_sent == sum_sat(interfaces@.map_values(|p: (u64, u64, u64, u64)| p.0)),
        r.bytes_received == sum_sat(interfaces@.map_values(|p: (u64, u64, u64, u64)| p.1)),
        r.packets_sent == sum_sat(interfaces@.map_values(|p: (u64, u64, u64, u64)| p.2)),
        r.packets_received == sum_sat(interfaces@.map_values(|p: (u64, u64, u64, u64)| p.3)),
{
    let bytes_sent = sum_column(interfaces, 0);
    let bytes_received = sum_column(interfaces, 1);
    let packets_sent = sum_column(interfaces, 2);
    let packets_received = sum_column(interfaces, 3);
    proof {
        assert(interfaces@.map_values(
            |p: (u64, u64, u64, u64)|
                if 0usize == 0 {
                    p.0
                } else if 0usize == 1 {
                    p.1
                } else if 0usize == 2 {
                    p.2
                } else {
                    p.3
                },
        ) =~= interfaces@.map_values(|p: (u64, u64, u64, u64)| p.0));
        assert(interfaces@.map_values(
            |p: (u64, u64, u64, u64)|
                if 1usize == 0 {
                    p.0
                } else if 1usize == 1 {
                    p.1
                } else if 1usize == 2 {
                    p.2
                } else {
                    p.3
                },
        ) =~= interfaces@.map_values(|p: (u64, u64, u64, u64)| p.1));
        assert(interfaces@.map_values(
            |p: (u64, u64, u64, u64)|
                if 2usize == 0 {
                    p.0
                } else if 2usize == 1 {
                    p.1
                } else if 2usize == 2 {
                    p.2
                } else {
                    p.3
                },
        ) =~= interfaces@.map_values(|p: (u64, u64, u64, u64)| p.2));
        assert(interfaces@.map_values(
            |p: (u64, u64, u64, u64)|
                if 3usize == 0 {
                    p.0
                } else if 3usize == 1 {
                    p.1
                } else if 3usize == 2 {
                    p.2
                } else {
                    p.3
                },
        ) =~= interfaces@.map_values(|p: (u64, u64, u64, u64)| p.3));
    }
    NetworkMetrics { bytes_sent, bytes_received, packets_sent, packets_received }
}

} // verus!

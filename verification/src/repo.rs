//! The rule repository: loads a directory's rule definitions into an
//! immutable, queryable snapshot. Files are processed in sorted-name order,
//! each validated independently; an invalid file is reported and skipped;
//! a duplicate rule id keeps the first occurrence and reports every later
//! one. What a load yields is a function of the files' models alone, so the
//! same directory always yields the same snapshot, however the file system
//! orders its entries.

use vstd::prelude::*;
use vstd::multiset::Multiset;
use vstd::relations::sorted_by;
use crate::rules::{
    Rule, RuleErrorKind, RuleModel, RuleRaw, SigmaRule, compile_rule, compile_rule_spec,
    rule_model, rule_raw,
};
use crate::text::{
    lex_le, lemma_lex_le_antisymmetric, lemma_lex_le_connected, lemma_lex_le_transitive, str_le,
};
use crate::value::str_eq;

verus! {

/// One entry of a rule directory: the file's name and its parsed definition,
/// or `None` where the file could not be read as a rule definition at all.
pub struct RuleFile {
    pub name: String,
    pub parsed: Option<SigmaRule>,
}

/// The model of a rule file.
pub struct RuleFileRaw {
    pub name: Seq<char>,
    pub parsed: Option<RuleRaw>,
}

pub open spec fn file_raw(f: RuleFile) -> RuleFileRaw {
    RuleFileRaw {
        name: f.name@,
        parsed: match f.parsed {
            Some(d) => Some(rule_raw(d)),
            None => None,
        },
    }
}

pub open spec fn files_raw(s: Seq<RuleFile>) -> Seq<RuleFileRaw> {
    s.map_values(|f: RuleFile| file_raw(f))
}

/// A per-file load error: which file, and why.
pub struct RuleLoadError {
    pub file: String,
    pub kind: RuleErrorKind,
}

pub open spec fn err_model(e: RuleLoadError) -> (Seq<char>, RuleErrorKind) {
    (e.file@, e.kind)
}

pub open spec fn errs_model(s: Seq<RuleLoadError>) -> Seq<(Seq<char>, RuleErrorKind)> {
    s.map_values(|e: RuleLoadError| err_model(e))
}

/// File order: by name, lexicographically.
pub open spec fn file_leq() -> spec_fn(RuleFileRaw, RuleFileRaw) -> bool {
    |a: RuleFileRaw, b: RuleFileRaw| lex_le(a.name, b.name)
}

/// Where `f` stands among the already sorted `s`: before the first entry
/// whose name does not come before `f`'s.
pub open spec fn insert_file(f: RuleFileRaw, s: Seq<RuleFileRaw>) -> Seq<RuleFileRaw>
    decreases s.len(),
{
    if s.len() == 0 {
        seq![f]
    } else if lex_le(f.name, s[0].name) {
        seq![f] + s
    } else {
        seq![s[0]] + insert_file(f, s.drop_first())
    }
}

/// The files in sorted-name order: insertion sort, fully determined.
pub open spec fn sort_files(s: Seq<RuleFileRaw>) -> Seq<RuleFileRaw>
    decreases s.len(),
{
    if s.len() == 0 {
        Seq::empty()
    } else {
        insert_file(s[0], sort_files(s.drop_first()))
    }
}

/// Some already accepted rule claims this id.
pub open spec fn has_id(rules: Seq<RuleModel>, id: Seq<char>) -> bool {
    exists|i: int| 0 <= i < rules.len() && rules[i].id == id
}

/// Processing the sorted files in order: an unparsable file and an invalid
/// definition are reported and skipped; a duplicate id keeps the first
/// occurrence and reports the later file; a valid rule is appended.
pub open spec fn load_step(
    files: Seq<RuleFileRaw>,
    acc: Seq<RuleModel>,
    errs: Seq<(Seq<char>, RuleErrorKind)>,
) -> (Seq<RuleModel>, Seq<(Seq<char>, RuleErrorKind)>)
    decreases files.len(),
{
    if files.len() == 0 {
        (acc, errs)
    } else {
        let f = files[0];
        match f.parsed {
            None => load_step(
                files.drop_first(),
                acc,
                errs.push((f.name, RuleErrorKind::Unparsable)),
            ),
            Some(raw) => match compile_rule_spec(raw) {
                Err(k) => load_step(files.drop_first(), acc, errs.push((f.name, k))),
                Ok(rm) => if has_id(acc, rm.id) {
                    load_step(
                        files.drop_first(),
                        acc,
                        errs.push((f.name, RuleErrorKind::DuplicateId)),
                    )
                } else {
                    load_step(files.drop_first(), acc.push(rm), errs)
                },
            },
        }
    }
}

/// What loading a directory yields: its files processed in sorted-name order.
pub open spec fn spec_load(files: Seq<RuleFileRaw>) -> (
    Seq<RuleModel>,
    Seq<(Seq<char>, RuleErrorKind)>,
) {
    load_step(sort_files(files), Seq::empty(), Seq::empty())
}

/// An immutable snapshot of compiled rules. Built once by `load_rules`;
/// evaluation only ever reads it.
pub struct RuleSet {
    pub rules: Vec<Rule>,
}

pub open spec fn rules_model(rs: Seq<Rule>) -> Seq<RuleModel> {
    rs.map_values(|r: Rule| rule_model(r))
}

impl RuleSet {
    /// The model of this snapshot: its rules' models, in order.
    pub open spec fn model(&self) -> Seq<RuleModel> {
        rules_model(self.rules@)
    }

    /// How many rules the snapshot holds.
    pub fn len(&self) -> (n: usize)
        ensures
            n == self.model().len(),
    {
        proof {
            assert(self.model().len() == self.rules@.len());
        }
        self.rules.len()
    }
}

// ---------------------------------------------------------------------------
// Sorting, executable.
// ---------------------------------------------------------------------------

proof fn lemma_insert_file_at(f: RuleFileRaw, s: Seq<RuleFileRaw>, k: int)
    requires
        0 <= k <= s.len(),
        forall|m: int| 0 <= m < k ==> !lex_le(f.name, #[trigger] s[m].name),
        k == s.len() || lex_le(f.name, s[k].name),
    ensures
        insert_file(f, s) == s.subrange(0, k) + seq![f] + s.skip(k),
    decreases k,
{
    if k == 0 {
        if s.len() == 0 {
            assert(insert_file(f, s) =~= s.subrange(0, 0) + seq![f] + s.skip(0));
        } else {
            assert(insert_file(f, s) =~= s.subrange(0, 0) + seq![f] + s.skip(0));
        }
    } else {
        lemma_insert_file_at(f, s.drop_first(), k - 1);
        assert(s.drop_first().subrange(0, k - 1) =~= s.subrange(1, k));
        assert(s.drop_first().skip(k - 1) =~= s.skip(k));
        assert(seq![s[0]] + (s.subrange(1, k) + seq![f] + s.skip(k)) =~= s.subrange(0, k) + seq![f]
            + s.skip(k));
    }
}

/// Inserts one file into an already sorted list, keeping the sort.
fn insert_sorted(f: RuleFile, sorted: &mut Vec<RuleFile>)
    ensures
        files_raw(final(sorted)@) == insert_file(file_raw(f), files_raw(old(sorted)@)),
{
    let n = sorted.len();
    let ghost fm = files_raw(sorted@);
    proof {
        assert(fm.len() == n);
        assert(forall|j: int| 0 <= j < n ==> #[trigger] fm[j] == file_raw(sorted@[j]));
    }
    let mut k: usize = 0;
    while k < n
        invariant_except_break
            k <= n,
            n == sorted@.len(),
            fm == files_raw(sorted@),
            fm.len() == n,
            forall|j: int| 0 <= j < n ==> #[trigger] fm[j] == file_raw(sorted@[j]),
            forall|m: int| 0 <= m < k ==> !lex_le(f.name@, #[trigger] fm[m].name),
        ensures
            k <= n,
            n == sorted@.len(),
            fm == files_raw(sorted@),
            forall|m: int| 0 <= m < k ==> !lex_le(f.name@, #[trigger] fm[m].name),
            k == n || lex_le(f.name@, fm[k as int].name),
        decreases n - k,
    {
        if str_le(f.name.as_str(), sorted[k].name.as_str()) {
            break ;
        }
        k = k + 1;
    }
    proof {
        lemma_insert_file_at(file_raw(f), fm, k as int);
    }
    let ghost pre = sorted@;
    sorted.insert(k, f);
    proof {
        assert(files_raw(sorted@) =~= fm.subrange(0, k as int) + seq![file_raw(f)] + fm.skip(
            k as int,
        ));
    }
}

/// Sorts rule files by name, as `sort_files` says.
fn sort_rule_files(files: Vec<RuleFile>) -> (out: Vec<RuleFile>)
    ensures
        files_raw(out@) == sort_files(files_raw(files@)),
{
    let ghost orig = files@;
    let mut files = files;
    let mut out: Vec<RuleFile> = Vec::new();
    proof {
        assert(files_raw(orig).skip(orig.len() as int) =~= Seq::<RuleFileRaw>::empty());
        assert(files_raw(out@) =~= Seq::<RuleFileRaw>::empty());
        assert(orig.subrange(0, orig.len() as int) =~= orig);
    }
    while files.len() > 0
        invariant
            files@.len() <= orig.len(),
            files@ == orig.subrange(0, files@.len() as int),
            files_raw(out@) == sort_files(files_raw(orig).skip(files@.len() as int)),
        decreases files@.len(),
    {
        let ghost len = files@.len() as int;
        let e = match files.pop() {
            Some(e) => e,
            None => {
                proof {
                    assert(false);
                }
                return out;
            },
        };
        proof {
            assert(e == orig[len - 1]);
            assert(files@ =~= orig.subrange(0, len - 1));
            let tail = files_raw(orig).skip(len - 1);
            assert(tail[0] == files_raw(orig)[len - 1]);
            assert(files_raw(orig)[len - 1] == file_raw(orig[len - 1]));
            assert(tail.drop_first() =~= files_raw(orig).skip(len));
        }
        insert_sorted(e, &mut out);
    }
    proof {
        assert(files_raw(orig).skip(0) =~= files_raw(orig));
    }
    out
}

// ---------------------------------------------------------------------------
// Loading.
// ---------------------------------------------------------------------------

/// Whether some already accepted rule claims `id`.
fn has_rule_id(rules: &Vec<Rule>, id: &str) -> (r: bool)
    ensures
        r == has_id(rules_model(rules@), id@),
{
    let n = rules.len();
    let mut i: usize = 0;
    while i < n
        invariant
            i <= n,
            n == rules.len(),
            forall|j: int| 0 <= j < i ==> #[trigger] rules_model(rules@)[j].id != id@,
        decreases n - i,
    {
        if str_eq(rules[i].id.as_str(), id) {
            assert(rules_model(rules@)[i as int].id == id@);
            return true;
        }
        i = i + 1;
    }
    false
}

/// Loads a directory's rule files into a snapshot, with one error report per
/// rejected file. The outcome is exactly `spec_load` of the files' models:
/// files are taken in sorted-name order, every invalid file is reported and
/// skipped, the first rule of each id wins and every later claim of that id
/// is reported.
pub fn load_rules(files: Vec<RuleFile>) -> (r: (RuleSet, Vec<RuleLoadError>))
    ensures
        (rules_model(r.0.rules@), errs_model(r.1@)) == spec_load(files_raw(files@)),
{
    let ghost input = files_raw(files@);
    let sorted = sort_rule_files(files);
    let ghost sortedm = files_raw(sorted@);
    let n = sorted.len();
    let mut rules: Vec<Rule> = Vec::new();
    let mut errs: Vec<RuleLoadError> = Vec::new();
    let mut i: usize = 0;
    proof {
        assert(sortedm.len() == n);
        assert(forall|j: int| 0 <= j < n ==> #[trigger] sortedm[j] == file_raw(sorted@[j]));
        assert(sortedm.skip(0) =~= sortedm);
        assert(rules_model(rules@) =~= Seq::<RuleModel>::empty());
        assert(errs_model(errs@) =~= Seq::<(Seq<char>, RuleErrorKind)>::empty());
    }
    while i < n
        invariant
            i <= n,
            n == sorted.len(),
            sortedm == files_raw(sorted@),
            sortedm.len() == n,
            forall|j: int| 0 <= j < n ==> #[trigger] sortedm[j] == file_raw(sorted@[j]),
            load_step(sortedm.skip(i as int), rules_model(rules@), errs_model(errs@)) == load_step(
                sortedm,
                Seq::empty(),
                Seq::empty(),
            ),
        decreases n - i,
    {
        proof {
            assert(sortedm.skip(i as int)[0] == sortedm[i as int]);
            assert(sortedm.skip(i as int).drop_first() =~= sortedm.skip(i + 1));
        }
        let ghost pre_rules = rules@;
        let ghost pre_errs = errs@;
        let file = &sorted[i];
        match &file.parsed {
            None => {
                errs.push(
                    RuleLoadError { file: file.name.clone(), kind: RuleErrorKind::Unparsable },
                );
                proof {
                    assert(errs_model(errs@) =~= errs_model(pre_errs).push(
                        (sortedm[i as int].name, RuleErrorKind::Unparsable),
                    ));
                }
            },
            Some(def) => {
                match compile_rule(def) {
                    Err(k) => {
                        errs.push(RuleLoadError { file: file.name.clone(), kind: k });
                        proof {
                            assert(errs_model(errs@) =~= errs_model(pre_errs).push(
                                (sortedm[i as int].name, k),
                            ));
                        }
                    },
                    Ok(rule) => {
                        if has_rule_id(&rules, rule.id.as_str()) {
                            errs.push(
                                RuleLoadError {
                                    file: file.name.clone(),
                                    kind: RuleErrorKind::DuplicateId,
                                },
                            );
                            proof {
                                assert(errs_model(errs@) =~= errs_model(pre_errs).push(
                                    (sortedm[i as int].name, RuleErrorKind::DuplicateId),
                                ));
                            }
                        } else {
                            proof {
                                assert(rule_model(rule).id == rule.id@);
                            }
                            rules.push(rule);
                            proof {
                                assert(rules_model(rules@) =~= rules_model(pre_rules).push(
                                    rule_model(rule),
                                ));
                            }
                        }
                    },
                }
            },
        }
        i = i + 1;
    }
    proof {
        assert(sortedm.skip(n as int) =~= Seq::<RuleFileRaw>::empty());
    }
    (RuleSet { rules }, errs)
}

/// The repository proper: it owns the current snapshot. `reload` builds a
/// brand-new snapshot from the given files and publishes it whole; a reader
/// holding the old snapshot is unaffected, and publishing the swap atomically
/// is the embedding program's affair.
pub struct Repository {
    pub snapshot: RuleSet,
}

impl Repository {
    /// Builds the first snapshot.
    pub fn new(files: Vec<RuleFile>) -> (r: (Repository, Vec<RuleLoadError>))
        ensures
            (rules_model(r.0.snapshot.rules@), errs_model(r.1@)) == spec_load(files_raw(files@)),
    {
        let (rs, errs) = load_rules(files);
        (Repository { snapshot: rs }, errs)
    }

    /// Replaces the snapshot with a freshly built one, whole.
    pub fn reload(&mut self, files: Vec<RuleFile>) -> (errs: Vec<RuleLoadError>)
        ensures
            (rules_model(final(self).snapshot.rules@), errs_model(errs@)) == spec_load(
                files_raw(files@),
            ),
    {
        let (rs, errs) = load_rules(files);
        self.snapshot = rs;
        errs
    }
}

// ---------------------------------------------------------------------------
// Determinism of loading: the directory's iteration order cannot matter.
// ---------------------------------------------------------------------------

/// No two files share a name, as holds of the entries of one directory.
pub open spec fn distinct_names(s: Seq<RuleFileRaw>) -> bool {
    forall|i: int, j: int| 0 <= i < j < s.len() ==> s[i].name != s[j].name
}

proof fn lemma_insert_file_ensures(f: RuleFileRaw, s: Seq<RuleFileRaw>)
    requires
        sorted_by(s, file_leq()),
    ensures
        sorted_by(insert_file(f, s), file_leq()),
        insert_file(f, s).to_multiset() == s.to_multiset().insert(f),
    decreases s.len(),
{
    broadcast use vstd::seq_lib::group_to_multiset_ensures;

    let leq = file_leq();
    if s.len() == 0 {
        assert(insert_file(f, s) =~= Seq::empty().push(f));
        assert(insert_file(f, s).to_multiset() =~= s.to_multiset().insert(f));
    } else if lex_le(f.name, s[0].name) {
        let out = seq![f] + s;
        assert forall|i: int, j: int| 0 <= i < j < out.len() implies leq(out[i], out[j]) by {
            if i == 0 {
                if j > 0 {
                    assert(out[j] == s[j - 1]);
                    if j - 1 > 0 {
                        assert(leq(s[0], s[j - 1]));
                        lemma_lex_le_transitive(f.name, s[0].name, s[j - 1].name);
                    }
                }
            } else {
                assert(out[i] == s[i - 1]);
                assert(out[j] == s[j - 1]);
            }
        }
        assert(sorted_by(out, leq));
        assert(out =~= Seq::empty().push(f) + s);
        vstd::seq_lib::lemma_multiset_commutative(Seq::empty().push(f), s);
        assert(Seq::<RuleFileRaw>::empty().push(f).to_multiset() =~= Multiset::empty().insert(f));
        assert(out.to_multiset() =~= s.to_multiset().insert(f));
    } else {
        lemma_lex_le_connected(f.name, s[0].name);
        assert(lex_le(s[0].name, f.name));
        let tail = s.drop_first();
        assert forall|i: int, j: int| 0 <= i < j < tail.len() implies leq(tail[i], tail[j]) by {
            assert(tail[i] == s[i + 1]);
            assert(tail[j] == s[j + 1]);
        }
        lemma_insert_file_ensures(f, tail);
        let rec = insert_file(f, tail);
        let out = seq![s[0]] + rec;
        assert(insert_file(f, s) == out);
        assert forall|i: int, j: int| 0 <= i < j < out.len() implies leq(out[i], out[j]) by {
            if i == 0 {
                let x = out[j];
                assert(rec.to_multiset().contains(rec[j - 1]));
                assert(rec.to_multiset() == tail.to_multiset().insert(f));
                if x == f {
                    assert(leq(s[0], f));
                } else {
                    assert(tail.to_multiset().contains(x));
                    let m = choose|m: int| 0 <= m < tail.len() && tail[m] == x;
                    assert(s[m + 1] == x);
                    assert(leq(s[0], s[m + 1]));
                }
            } else {
                assert(out[i] == rec[i - 1]);
                assert(out[j] == rec[j - 1]);
            }
        }
        assert(sorted_by(out, leq));
        assert(out =~= Seq::empty().push(s[0]) + rec);
        vstd::seq_lib::lemma_multiset_commutative(Seq::empty().push(s[0]), rec);
        assert(Seq::<RuleFileRaw>::empty().push(s[0]).to_multiset() =~= Multiset::empty().insert(
            s[0],
        ));
        assert(s =~= Seq::empty().push(s[0]) + tail);
        vstd::seq_lib::lemma_multiset_commutative(Seq::empty().push(s[0]), tail);
        assert(out.to_multiset() =~= s.to_multiset().insert(f));
    }
}

proof fn lemma_sort_files_ensures(s: Seq<RuleFileRaw>)
    ensures
        sorted_by(sort_files(s), file_leq()),
        sort_files(s).to_multiset() == s.to_multiset(),
    decreases s.len(),
{
    broadcast use vstd::seq_lib::group_to_multiset_ensures;

    if s.len() == 0 {
        assert(sorted_by(sort_files(s), file_leq()));
    } else {
        lemma_sort_files_ensures(s.drop_first());
        lemma_insert_file_ensures(s[0], sort_files(s.drop_first()));
        assert(s =~= Seq::empty().push(s[0]) + s.drop_first());
        vstd::seq_lib::lemma_multiset_commutative(Seq::empty().push(s[0]), s.drop_first());
        assert(sort_files(s).to_multiset() =~= s.to_multiset());
    }
}

/// Two name-sorted listings of one set of files, no two of which share a
/// name, are one listing.
proof fn lemma_sorted_files_unique(x: Seq<RuleFileRaw>, y: Seq<RuleFileRaw>)
    requires
        sorted_by(x, file_leq()),
        sorted_by(y, file_leq()),
        x.to_multiset() == y.to_multiset(),
        distinct_names(x),
    ensures
        x == y,
    decreases x.len(),
{
    broadcast use vstd::seq_lib::group_to_multiset_ensures;

    if x.len() == 0 {
        assert(y.to_multiset().len() == 0);
        assert(x =~= y);
    } else {
        assert(x.to_multiset().contains(x[0]));
        assert(y.to_multiset().contains(x[0]));
        assert(y.len() > 0);
        assert(y.to_multiset().contains(y[0]));
        assert(x.to_multiset().contains(y[0]));
        let i = choose|i: int| 0 <= i < x.len() && x[i] == y[0];
        let j = choose|j: int| 0 <= j < y.len() && y[j] == x[0];
        if i > 0 {
            assert(file_leq()(x[0], x[i]));
        }
        if j > 0 {
            assert(file_leq()(y[0], y[j]));
        }
        assert(lex_le(x[0].name, y[0].name) || x[0] == y[0]);
        assert(lex_le(y[0].name, x[0].name) || y[0] == x[0]);
        if x[0] != y[0] {
            lemma_lex_le_antisymmetric(x[0].name, y[0].name);
            assert(x[0].name == y[0].name);
            assert(x[i] == y[0]);
            assert(i > 0) by {
                if i == 0 {
                    assert(x[0] == y[0]);
                }
            }
            assert(x[i].name != x[0].name);
            assert(false);
        }
        assert(x[0] == y[0]);
        let xt = x.drop_first();
        let yt = y.drop_first();
        assert(x.remove(0) =~= xt);
        assert(y.remove(0) =~= yt);
        assert(xt.to_multiset() =~= x.to_multiset().remove(x[0]));
        assert(yt.to_multiset() =~= y.to_multiset().remove(y[0]));
        assert forall|a: int, b: int| 0 <= a < b < xt.len() implies file_leq()(xt[a], xt[b]) by {
            assert(xt[a] == x[a + 1]);
            assert(xt[b] == x[b + 1]);
        }
        assert forall|a: int, b: int| 0 <= a < b < yt.len() implies file_leq()(yt[a], yt[b]) by {
            assert(yt[a] == y[a + 1]);
            assert(yt[b] == y[b + 1]);
        }
        assert forall|a: int, b: int| 0 <= a < b < xt.len() implies xt[a].name != xt[b].name by {
            assert(xt[a] == x[a + 1]);
            assert(xt[b] == x[b + 1]);
        }
        lemma_sorted_files_unique(xt, yt);
        assert(x =~= y) by {
            assert(x.len() == y.len());
            assert forall|m: int| 0 <= m < x.len() implies x[m] == y[m] by {
                if m > 0 {
                    assert(xt[m - 1] == x[m]);
                    assert(yt[m - 1] == y[m]);
                    assert(xt =~= yt);
                }
            }
        }
    }
}

/// Loading does not depend on the order in which the directory hands its
/// files out: two listings of one directory — the same files, no two sharing
/// a name, in any orders — load to one snapshot and one error report.
pub proof fn lemma_load_order_independent(files1: Seq<RuleFileRaw>, files2: Seq<RuleFileRaw>)
    requires
        files1.to_multiset() == files2.to_multiset(),
        distinct_names(files1),
    ensures
        spec_load(files1) == spec_load(files2),
{
    broadcast use vstd::seq_lib::group_to_multiset_ensures;

    lemma_sort_files_ensures(files1);
    lemma_sort_files_ensures(files2);
    let s1 = sort_files(files1);
    let s2 = sort_files(files2);
    assert forall|a: int, b: int| 0 <= a < b < s1.len() implies s1[a].name != s1[b].name by {
        if s1[a].name == s1[b].name {
            assert(s1.to_multiset().contains(s1[a]));
            assert(s1.to_multiset().contains(s1[b]));
            if s1[a] == s1[b] {
                let su = s1.remove(b);
                assert(su.to_multiset() =~= s1.to_multiset().remove(s1[b]));
                assert(su[a] == s1[a]);
                assert(su.to_multiset().contains(s1[a]));
                assert(files1.to_multiset().remove(s1[b]).contains(s1[a]));
                assert(s1.to_multiset().count(s1[a]) >= 2);
                lemma_distinct_count_le_one(files1, s1[a]);
                assert(false);
            } else {
                assert(files1.to_multiset().contains(s1[a]));
                assert(files1.to_multiset().contains(s1[b]));
                let p = choose|p: int| 0 <= p < files1.len() && files1[p] == s1[a];
                let q = choose|q: int| 0 <= q < files1.len() && files1[q] == s1[b];
                assert(p != q);
                assert(files1[p].name == files1[q].name);
                if p < q {
                    assert(false);
                } else {
                    assert(false);
                }
            }
        }
    }
    lemma_sorted_files_unique(s1, s2);
}

/// In a listing in which no two entries share a name, no entry occurs twice.
proof fn lemma_distinct_count_le_one(s: Seq<RuleFileRaw>, x: RuleFileRaw)
    requires
        distinct_names(s),
    ensures
        s.to_multiset().count(x) <= 1,
{
    broadcast use vstd::seq_lib::group_to_multiset_ensures;

    if s.to_multiset().count(x) >= 2 {
        assert(s.to_multiset().contains(x));
        let p = choose|p: int| 0 <= p < s.len() && s[p] == x;
        let su = s.remove(p);
        assert(su.to_multiset() =~= s.to_multiset().remove(x));
        assert(su.to_multiset().count(x) >= 1);
        assert(su.to_multiset().contains(x));
        let q = choose|q: int| 0 <= q < su.len() && su[q] == x;
        if q < p {
            assert(s[q] == su[q]);
            assert(s[q].name == s[p].name);
        } else {
            assert(s[q + 1] == su[q]);
            assert(s[q + 1].name == s[p].name);
        }
        assert(false);
    }
}

} // verus!

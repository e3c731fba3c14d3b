//! The log store: an append-only history of run records, whose read side
//! reconstructs per-pipeline and per-session history ordered by date and
//! lazily reclassifies runs whose process died without reporting.

use vstd::prelude::*;

use crate::dates::{date_stamp, parse_date};
use crate::error::PipelightError;
use crate::logs::{PipelineLog, PipelineLogView, PipelineState};
use crate::text::{str_eq, str_views};

verus! {

/// The views of a sequence of records.
pub open spec fn log_views(s: Seq<PipelineLog>) -> Seq<PipelineLogView> {
    s.map_values(|r: PipelineLog| r@)
}

/// A record is dated when its date string denotes an instant.
pub open spec fn dated(r: PipelineLogView) -> bool {
    date_stamp(r.date) is Some
}

pub open spec fn all_dated(s: Seq<PipelineLogView>) -> bool {
    forall|i: int| 0 <= i < s.len() ==> dated(#[trigger] s[i])
}

/// The instant a record's date denotes (meaningful for dated records).
pub open spec fn stamp(r: PipelineLogView) -> int {
    date_stamp(r.date)->Some_0
}

/// Date order on records: `a` is not later than `b`.
pub open spec fn le_date(a: PipelineLogView, b: PipelineLogView) -> bool {
    stamp(a) <= stamp(b)
}

/// Insert `r` after every record whose date is not later than `r`'s: the
/// stable insertion that `sort_dated` is built from.
pub open spec fn insert_dated(s: Seq<PipelineLogView>, r: PipelineLogView) -> Seq<PipelineLogView>
    decreases s.len(),
{
    if s.len() == 0 {
        seq![r]
    } else if le_date(s.last(), r) {
        s.push(r)
    } else {
        insert_dated(s.drop_last(), r).push(s.last())
    }
}

/// The records of `s` ordered by the instants their dates denote, ascending.
/// Records with equal instants keep their relative order (stable sort), so
/// the last record of the result is the latest one, and the last written
/// among ties.
pub open spec fn sort_dated(s: Seq<PipelineLogView>) -> Seq<PipelineLogView>
    decreases s.len(),
{
    if s.len() == 0 {
        Seq::empty()
    } else {
        insert_dated(sort_dated(s.drop_last()), s.last())
    }
}

pub open spec fn sorted_by_date(s: Seq<PipelineLogView>) -> bool {
    forall|i: int, j: int| 0 <= i < j < s.len() ==> le_date(s[i], s[j])
}

proof fn lemma_insert_dated_multiset(s: Seq<PipelineLogView>, r: PipelineLogView)
    ensures
        insert_dated(s, r).to_multiset() == s.push(r).to_multiset(),
    decreases s.len(),
{
    broadcast use vstd::seq_lib::group_to_multiset_ensures;

    if s.len() == 0 {
        assert(seq![r] =~= Seq::<PipelineLogView>::empty().push(r));
        assert(s =~= Seq::<PipelineLogView>::empty());
    } else if le_date(s.last(), r) {
    } else {
        let dl = s.drop_last();
        let last = s.last();
        lemma_insert_dated_multiset(dl, r);
        assert(s =~= dl.push(last));
        assert(insert_dated(s, r).to_multiset() =~= insert_dated(dl, r).to_multiset().insert(
            last,
        ));
        assert(insert_dated(dl, r).to_multiset().insert(last) =~= dl.push(r).to_multiset().insert(
            last,
        ));
        assert(dl.push(r).to_multiset() =~= dl.to_multiset().insert(r));
        assert(dl.to_multiset().insert(r).insert(last) =~= dl.to_multiset().insert(last).insert(
            r,
        ));
        assert(s.push(r).to_multiset() =~= s.to_multiset().insert(r));
        assert(s.to_multiset() =~= dl.to_multiset().insert(last));
    }
}

proof fn lemma_insert_dated_sorted(s: Seq<PipelineLogView>, r: PipelineLogView)
    requires
        sorted_by_date(s),
    ensures
        sorted_by_date(insert_dated(s, r)),
    decreases s.len(),
{
    broadcast use vstd::seq_lib::group_to_multiset_ensures;

    if s.len() == 0 {
    } else if le_date(s.last(), r) {
        let t = s.push(r);
        assert forall|i: int, j: int| 0 <= i < j < t.len() implies le_date(t[i], t[j]) by {
            if j < s.len() {
            } else {
                if i < s.len() - 1 {
                    assert(le_date(s[i], s[s.len() - 1]));
                }
            }
        }
    } else {
        let dl = s.drop_last();
        let last = s.last();
        assert(sorted_by_date(dl)) by {
            assert(forall|i: int, j: int|
                0 <= i < j < dl.len() ==> le_date(dl[i], dl[j]) == le_date(s[i], s[j]));
        }
        lemma_insert_dated_sorted(dl, r);
        let u = insert_dated(dl, r);
        assert forall|k: int| 0 <= k < u.len() implies le_date(u[k], last) by {
            lemma_insert_dated_multiset(dl, r);
            assert(u.contains(u[k]));
            assert(u.to_multiset().count(u[k]) > 0);
            assert(dl.push(r).to_multiset().count(u[k]) > 0);
            assert(dl.push(r).contains(u[k]));
            let m = choose|m: int| 0 <= m < dl.push(r).len() && dl.push(r)[m] == u[k];
            if m < dl.len() {
                assert(dl[m] == s[m]);
                assert(le_date(s[m], s[s.len() - 1]));
            } else {
                assert(u[k] == r);
            }
        }
        let t = u.push(last);
        assert forall|i: int, j: int| 0 <= i < j < t.len() implies le_date(t[i], t[j]) by {
            if j < u.len() {
            } else {
                assert(le_date(u[i], last));
            }
        }
    }
}

/// The defining facts of `sort_dated`: the result is ordered by date and is
/// a permutation of its input (so histories are reordered, never invented or
/// dropped).
pub proof fn lemma_sort_dated_props(s: Seq<PipelineLogView>)
    ensures
        sorted_by_date(sort_dated(s)),
        sort_dated(s).to_multiset() == s.to_multiset(),
        sort_dated(s).len() == s.len(),
    decreases s.len(),
{
    broadcast use vstd::seq_lib::group_to_multiset_ensures;

    if s.len() == 0 {
    } else {
        let dl = s.drop_last();
        let last = s.last();
        lemma_sort_dated_props(dl);
        lemma_insert_dated_sorted(sort_dated(dl), last);
        lemma_insert_dated_multiset(sort_dated(dl), last);
        assert(sort_dated(dl).push(last).to_multiset() =~= sort_dated(dl).to_multiset().insert(
            last,
        ));
        assert(s =~= dl.push(last));
        assert(s.to_multiset() =~= dl.to_multiset().insert(last));
        assert(sort_dated(s).len() == sort_dated(s).to_multiset().len());
        assert(s.len() == s.to_multiset().len());
    }
}

/// Whatever `sort_dated` returns was already in the input sequence.
pub proof fn lemma_sort_dated_contains(s: Seq<PipelineLogView>, x: PipelineLogView)
    requires
        sort_dated(s).contains(x),
    ensures
        s.contains(x),
{
    broadcast use vstd::seq_lib::group_to_multiset_ensures;

    lemma_sort_dated_props(s);
    assert(sort_dated(s).to_multiset().count(x) > 0);
    assert(s.to_multiset().count(x) > 0);
}

/// Sorting keeps every record dated.
pub proof fn lemma_sort_dated_all_dated(s: Seq<PipelineLogView>)
    requires
        all_dated(s),
    ensures
        all_dated(sort_dated(s)),
{
    let t = sort_dated(s);
    assert forall|i: int| 0 <= i < t.len() implies dated(t[i]) by {
        assert(t.contains(t[i]));
        lemma_sort_dated_contains(s, t[i]);
        let j = choose|j: int| 0 <= j < s.len() && s[j] == t[i];
        assert(dated(s[j]));
    }
}

proof fn lemma_log_views_push(s: Seq<PipelineLog>, r: PipelineLog)
    ensures
        log_views(s.push(r)) == log_views(s).push(r@),
{
    assert(log_views(s.push(r)) =~= log_views(s).push(r@));
}

proof fn lemma_log_views_drop_last(s: Seq<PipelineLog>)
    requires
        s.len() > 0,
    ensures
        log_views(s.drop_last()) == log_views(s).drop_last(),
{
    assert(log_views(s.drop_last()) =~= log_views(s).drop_last());
}

/// The instant this record's date denotes.
fn record_stamp(r: &PipelineLog) -> (t: i64)
    requires
        dated(r@),
    ensures
        date_stamp(r@.date) == Some(t as int),
{
    match parse_date(r.date.as_str()) {
        Some(t) => t,
        None => unreached(),
    }
}

/// Insert `r` into `out` after every record dated no later, keeping `out`'s
/// order otherwise.
fn insert_by_date(out: &mut Vec<PipelineLog>, r: PipelineLog)
    requires
        all_dated(log_views(old(out)@)),
        dated(r@),
    ensures
        log_views(final(out)@) == insert_dated(log_views(old(out)@), r@),
    decreases old(out)@.len(),
{
    let ghost vs = log_views(out@);
    if out.len() == 0 {
        out.push(r);
        proof {
            lemma_log_views_push(old(out)@, r);
            assert(vs =~= Seq::<PipelineLogView>::empty());
            assert(vs.push(r@) =~= seq![r@]);
        }
    } else {
        let n = out.len();
        proof {
            assert(vs[n - 1] == out@[n - 1]@);
            assert(dated(vs[n - 1]));
        }
        let last_stamp = record_stamp(&out[n - 1]);
        let r_stamp = record_stamp(&r);
        if last_stamp <= r_stamp {
            proof {
                assert(vs.last() == vs[n - 1]);
                assert(le_date(vs.last(), r@));
            }
            out.push(r);
            proof {
                lemma_log_views_push(old(out)@, r);
            }
        } else {
            proof {
                assert(vs.last() == vs[n - 1]);
                assert(!le_date(vs.last(), r@));
            }
            let last = out.pop().unwrap();
            proof {
                lemma_log_views_drop_last(old(out)@);
                assert(old(out)@.subrange(0, old(out)@.len() - 1) =~= old(out)@.drop_last());
                assert(all_dated(log_views(out@))) by {
                    assert(forall|i: int|
                        0 <= i < vs.drop_last().len() ==> vs.drop_last()[i] == vs[i]);
                }
            }
            insert_by_date(out, r);
            let ghost mid = out@;
            out.push(last);
            proof {
                lemma_log_views_push(mid, last);
                assert(last@ == vs.last());
                assert(old(out)@.last() == last);
            }
        }
    }
}

/// Order the given records by the instants their dates denote, ascending and
/// stable.
fn sort_by_date(v: Vec<PipelineLog>) -> (out: Vec<PipelineLog>)
    requires
        all_dated(log_views(v@)),
    ensures
        log_views(out@) == sort_dated(log_views(v@)),
    decreases v@.len(),
{
    let ghost vs = log_views(v@);
    let ghost orig = v@;
    let mut w = v;
    match w.pop() {
        None => {
            proof {
                assert(vs =~= Seq::<PipelineLogView>::empty());
            }
            w
        },
        Some(last) => {
            proof {
                assert(orig.subrange(0, orig.len() - 1) =~= orig.drop_last());
                lemma_log_views_drop_last(orig);
                assert(all_dated(log_views(w@))) by {
                    assert(forall|i: int|
                        0 <= i < vs.drop_last().len() ==> vs.drop_last()[i] == vs[i]);
                }
                assert(last@ == vs.last());
            }
            let mut sorted = sort_by_date(w);
            proof {
                lemma_sort_dated_all_dated(log_views(w@));
            }
            insert_by_date(&mut sorted, last);
            sorted
        },
    }
}

/// The records of `s` that belong to the pipeline called `name`, in order.
pub open spec fn with_name(s: Seq<PipelineLogView>, name: Seq<char>) -> Seq<PipelineLogView>
    decreases s.len(),
{
    if s.len() == 0 {
        Seq::empty()
    } else {
        let rest = with_name(s.drop_last(), name);
        if s.last().name == name {
            rest.push(s.last())
        } else {
            rest
        }
    }
}

/// The records of `s` that belong to the session `sid`, in order.
pub open spec fn with_sid(s: Seq<PipelineLogView>, sid: u32) -> Seq<PipelineLogView>
    decreases s.len(),
{
    if s.len() == 0 {
        Seq::empty()
    } else {
        let rest = with_sid(s.drop_last(), sid);
        if s.last().sid == Some(sid) {
            rest.push(s.last())
        } else {
            rest
        }
    }
}

/// Whatever `with_name` keeps was in the input sequence.
proof fn lemma_with_name_contains(s: Seq<PipelineLogView>, name: Seq<char>, x: PipelineLogView)
    requires
        with_name(s, name).contains(x),
    ensures
        s.contains(x),
        x.name == name,
    decreases s.len(),
{
    if s.len() == 0 {
    } else {
        let rest = with_name(s.drop_last(), name);
        if s.last().name == name && x == s.last() {
            assert(s[s.len() - 1] == x);
        } else {
            assert(rest.contains(x));
            lemma_with_name_contains(s.drop_last(), name, x);
            let j = choose|j: int| 0 <= j < s.drop_last().len() && s.drop_last()[j] == x;
            assert(s[j] == x);
        }
    }
}

proof fn lemma_with_name_all_dated(s: Seq<PipelineLogView>, name: Seq<char>)
    requires
        all_dated(s),
    ensures
        all_dated(with_name(s, name)),
{
    let m = with_name(s, name);
    assert forall|i: int| 0 <= i < m.len() implies dated(m[i]) by {
        assert(m.contains(m[i]));
        lemma_with_name_contains(s, name, m[i]);
        let j = choose|j: int| 0 <= j < s.len() && s[j] == m[i];
        assert(dated(s[j]));
    }
}

proof fn lemma_with_sid_all_dated(s: Seq<PipelineLogView>, sid: u32)
    requires
        all_dated(s),
    ensures
        all_dated(with_sid(s, sid)),
    decreases s.len(),
{
    if s.len() == 0 {
    } else {
        assert(all_dated(s.drop_last())) by {
            assert(forall|i: int|
                0 <= i < s.drop_last().len() ==> s.drop_last()[i] == s[i]);
        }
        lemma_with_sid_all_dated(s.drop_last(), sid);
        let m = with_sid(s, sid);
        let rest = with_sid(s.drop_last(), sid);
        if s.last().sid == Some(sid) {
            assert forall|i: int| 0 <= i < m.len() implies dated(m[i]) by {
                if i < rest.len() {
                    assert(dated(rest[i]));
                } else {
                    assert(m[i] == s.last());
                    assert(dated(s[s.len() - 1]));
                }
            }
        }
    }
}

/// The distinct pipeline names appearing in `s`, each at its first
/// occurrence.
pub open spec fn distinct_names(s: Seq<PipelineLogView>) -> Seq<Seq<char>>
    decreases s.len(),
{
    if s.len() == 0 {
        Seq::empty()
    } else {
        let rest = distinct_names(s.drop_last());
        if rest.contains(s.last().name) {
            rest
        } else {
            rest.push(s.last().name)
        }
    }
}

/// The newest record of the pipeline called `name` (the last written among
/// date ties).
pub open spec fn latest_of(s: Seq<PipelineLogView>, name: Seq<char>) -> PipelineLogView {
    sort_dated(with_name(s, name)).last()
}

/// One newest record per distinct pipeline name.
pub open spec fn latest_per_name(s: Seq<PipelineLogView>) -> Seq<PipelineLogView> {
    distinct_names(s).map_values(|n: Seq<char>| latest_of(s, n))
}

/// Every name listed by `distinct_names` has at least one record.
proof fn lemma_distinct_names_nonempty(s: Seq<PipelineLogView>, name: Seq<char>)
    requires
        distinct_names(s).contains(name),
    ensures
        with_name(s, name).len() > 0,
    decreases s.len(),
{
    if s.len() == 0 {
    } else {
        let rest = distinct_names(s.drop_last());
        if s.last().name == name {
        } else {
            assert(rest.contains(name)) by {
                if rest.contains(s.last().name) {
                } else {
                    let k = choose|k: int|
                        0 <= k < distinct_names(s).len() && distinct_names(s)[k] == name;
                    assert(k < rest.len());
                }
            }
            lemma_distinct_names_nonempty(s.drop_last(), name);
        }
    }
}

/// A dated history has a dated newest record, drawn from the history itself.
proof fn lemma_latest_of_dated(s: Seq<PipelineLogView>, name: Seq<char>)
    requires
        all_dated(s),
        with_name(s, name).len() > 0,
    ensures
        dated(latest_of(s, name)),
        s.contains(latest_of(s, name)),
{
    let m = with_name(s, name);
    lemma_sort_dated_props(m);
    let t = sort_dated(m);
    assert(t.contains(t[t.len() - 1]));
    lemma_sort_dated_contains(m, t.last());
    lemma_with_name_contains(s, name, t.last());
    let j = choose|j: int| 0 <= j < s.len() && s[j] == t.last();
    assert(dated(s[j]));
}

/// Does the process a record points at still exist?
pub open spec fn pid_alive(pid: Option<u64>, live: Seq<u64>) -> bool {
    pid matches Some(p) && live.contains(p)
}

/// Abort detection: a record whose stored status is `Started` or `Running`
/// but whose recorded process is no longer alive reads back as `Aborted`
/// with no process attached; every other record reads back unchanged. The
/// store itself is never rewritten: this reinterprets a record at read time.
pub open spec fn spec_reclassify(r: PipelineLogView, live: Seq<u64>) -> PipelineLogView {
    if (r.state == PipelineState::Started || r.state == PipelineState::Running) && !pid_alive(
        r.pid,
        live,
    ) {
        PipelineLogView { state: PipelineState::Aborted, pid: None, ..r }
    } else {
        r
    }
}

pub open spec fn reclassify_all(s: Seq<PipelineLogView>, live: Seq<u64>) -> Seq<PipelineLogView> {
    s.map_values(|r: PipelineLogView| spec_reclassify(r, live))
}

fn pid_in(live: &Vec<u64>, p: u64) -> (r: bool)
    ensures
        r == live@.contains(p),
{
    let n = live.len();
    let mut i: usize = 0;
    while i < n
        invariant
            i <= n,
            n == live@.len(),
            forall|j: int| 0 <= j < i ==> live@[j] != p,
        decreases n - i,
    {
        if live[i] == p {
            return true;
        }
        i += 1;
    }
    false
}

/// Apply abort detection to one record.
fn reclassify(r: PipelineLog, live: &Vec<u64>) -> (out: PipelineLog)
    ensures
        out@ == spec_reclassify(r@, live@),
{
    let transient = match r.state {
        PipelineState::Started => true,
        PipelineState::Running => true,
        _ => false,
    };
    if transient {
        let alive = match r.pid {
            Some(p) => pid_in(live, p),
            None => false,
        };
        if alive {
            r
        } else {
            PipelineLog { state: PipelineState::Aborted, pid: None, ..r }
        }
    } else {
        r
    }
}

fn reclassify_vec(v: Vec<PipelineLog>, live: &Vec<u64>) -> (out: Vec<PipelineLog>)
    ensures
        log_views(out@) == reclassify_all(log_views(v@), live@),
{
    let ghost vs = log_views(v@);
    let n = v.len();
    let mut out: Vec<PipelineLog> = Vec::new();
    let mut i: usize = 0;
    while i < n
        invariant
            i <= n,
            n == v@.len(),
            vs == log_views(v@),
            log_views(out@) == reclassify_all(vs, live@).take(i as int),
        decreases n - i,
    {
        let rec = reclassify(v[i].clone(), live);
        let ghost prev = out@;
        out.push(rec);
        proof {
            lemma_log_views_push(prev, rec);
            assert(log_views(out@) =~= reclassify_all(vs, live@).take(i as int + 1));
        }
        i += 1;
    }
    proof {
        assert(reclassify_all(vs, live@).take(n as int) =~= reclassify_all(vs, live@));
    }
    out
}

/// The append-only store of run records. `records` grows at the end and is
/// never rewritten; every reading method takes the store by shared reference
/// together with the set of live process ids, against which abort detection
/// is decided.
pub struct Logs {
    pub records: Vec<PipelineLog>,
}

impl Logs {
    /// An empty store: no pipeline has run yet.
    pub fn new() -> (r: Logs)
        ensures
            r.records@.len() == 0,
    {
        Logs { records: Vec::new() }
    }

    /// Write one record at the end of the history. Existing records are
    /// never touched.
    pub fn append(&mut self, record: PipelineLog)
        ensures
            final(self).records@ == old(self).records@.push(record),
    {
        self.records.push(record);
    }

    /// All records of the pipeline called `name`, in insertion order.
    fn records_with_name(&self, name: &str) -> (out: Vec<PipelineLog>)
        ensures
            log_views(out@) == with_name(log_views(self.records@), name@),
    {
        let ghost vs = log_views(self.records@);
        let n = self.records.len();
        let mut out: Vec<PipelineLog> = Vec::new();
        let mut i: usize = 0;
        while i < n
            invariant
                i <= n,
                n == self.records@.len(),
                vs == log_views(self.records@),
                log_views(out@) == with_name(vs.take(i as int), name@),
            decreases n - i,
        {
            proof {
                assert(vs.take(i as int + 1).drop_last() =~= vs.take(i as int));
                assert(vs.take(i as int + 1).last() == vs[i as int]);
                assert(vs[i as int] == self.records@[i as int]@);
            }
            let rec = &self.records[i];
            if str_eq(rec.name.as_str(), name) {
                let ghost prev = out@;
                out.push(rec.clone());
                proof {
                    lemma_log_views_push(prev, *rec);
                }
            }
            i += 1;
        }
        proof {
            assert(vs.take(n as int) =~= vs);
        }
        out
    }

    /// All records of the session `sid`, in insertion order.
    fn records_with_sid(&self, sid: u32) -> (out: Vec<PipelineLog>)
        ensures
            log_views(out@) == with_sid(log_views(self.records@), sid),
    {
        let ghost vs = log_views(self.records@);
        let n = self.records.len();
        let mut out: Vec<PipelineLog> = Vec::new();
        let mut i: usize = 0;
        while i < n
            invariant
                i <= n,
                n == self.records@.len(),
                vs == log_views(self.records@),
                log_views(out@) == with_sid(vs.take(i as int), sid),
            decreases n - i,
        {
            proof {
                assert(vs.take(i as int + 1).drop_last() =~= vs.take(i as int));
                assert(vs.take(i as int + 1).last() == vs[i as int]);
                assert(vs[i as int] == self.records@[i as int]@);
            }
            let rec = &self.records[i];
            let same = match rec.sid {
                Some(s) => s == sid,
                None => false,
            };
            if same {
                let ghost prev = out@;
                out.push(rec.clone());
                proof {
                    lemma_log_views_push(prev, *rec);
                }
            }
            i += 1;
        }
        proof {
            assert(vs.take(n as int) =~= vs);
        }
        out
    }

    fn check_all_dated(v: &Vec<PipelineLog>) -> (r: bool)
        ensures
            r == all_dated(log_views(v@)),
    {
        let ghost vs = log_views(v@);
        let n = v.len();
        let mut i: usize = 0;
        while i < n
            invariant
                i <= n,
                n == v@.len(),
                vs == log_views(v@),
                forall|j: int| 0 <= j < i ==> dated(#[trigger] vs[j]),
            decreases n - i,
        {
            proof {
                assert(vs[i as int] == v@[i as int]@);
            }
            match parse_date(v[i].date.as_str()) {
                Some(_) => {},
                None => {
                    proof {
                        assert(!dated(vs[i as int]));
                    }
                    return false;
                },
            }
            i += 1;
        }
        true
    }

    /// The latest record of the pipeline called `name`, with abort detection
    /// applied: the record whose date is newest (the last written among
    /// ties). `NotFound` exactly when no record carries that name; `IoError`
    /// exactly when some record of that name carries an unreadable date.
    pub fn get_by_name(&self, name: &str, live: &Vec<u64>) -> (r: Result<
        PipelineLog,
        PipelightError,
    >)
        ensures
            ({
                let matching = with_name(log_views(self.records@), name@);
                match r {
                    Ok(rec) => matching.len() > 0 && all_dated(matching) && rec@
                        == spec_reclassify(sort_dated(matching).last(), live@),
                    Err(PipelightError::NotFound) => matching.len() == 0,
                    Err(PipelightError::IoError) => matching.len() > 0 && !all_dated(matching),
                    Err(_) => false,
                }
            }),
    {
        let ghost matching = with_name(log_views(self.records@), name@);
        let found = self.records_with_name(name);
        if found.len() == 0 {
            proof {
                assert(matching.len() == 0);
            }
            return Err(PipelightError::NotFound);
        }
        if !Self::check_all_dated(&found) {
            return Err(PipelightError::IoError);
        }
        let sorted = sort_by_date(found);
        proof {
            lemma_sort_dated_props(matching);
        }
        let last = sorted[sorted.len() - 1].clone();
        proof {
            assert(last@ == log_views(sorted@)[sorted@.len() - 1]);
            assert(last@ == sort_dated(matching).last());
        }
        Ok(reclassify(last, live))
    }

    /// Every record of the pipeline called `name`, ordered by date ascending
    /// (stable), with abort detection applied to each. `NotFound` exactly
    /// when no record carries that name; `IoError` exactly when one of them
    /// carries an unreadable date.
    pub fn get_many_by_name(&self, name: &str, live: &Vec<u64>) -> (r: Result<
        Vec<PipelineLog>,
        PipelightError,
    >)
        ensures
            ({
                let matching = with_name(log_views(self.records@), name@);
                match r {
                    Ok(v) => matching.len() > 0 && all_dated(matching) && log_views(v@)
                        == reclassify_all(sort_dated(matching), live@),
                    Err(PipelightError::NotFound) => matching.len() == 0,
                    Err(PipelightError::IoError) => matching.len() > 0 && !all_dated(matching),
                    Err(_) => false,
                }
            }),
    {
        let found = self.records_with_name(name);
        if found.len() == 0 {
            return Err(PipelightError::NotFound);
        }
        if !Self::check_all_dated(&found) {
            return Err(PipelightError::IoError);
        }
        let sorted = sort_by_date(found);
        Ok(reclassify_vec(sorted, live))
    }

    /// Every record of the session `sid`, ordered by date ascending (stable),
    /// with abort detection applied to each. `NotFound` exactly when no
    /// record carries that session id; `IoError` exactly when one of them
    /// carries an unreadable date.
    pub fn get_many_by_sid(&self, sid: u32, live: &Vec<u64>) -> (r: Result<
        Vec<PipelineLog>,
        PipelightError,
    >)
        ensures
            ({
                let matching = with_sid(log_views(self.records@), sid);
                match r {
                    Ok(v) => matching.len() > 0 && all_dated(matching) && log_views(v@)
                        == reclassify_all(sort_dated(matching), live@),
                    Err(PipelightError::NotFound) => matching.len() == 0,
                    Err(PipelightError::IoError) => matching.len() > 0 && !all_dated(matching),
                    Err(_) => false,
                }
            }),
    {
        let found = self.records_with_sid(sid);
        if found.len() == 0 {
            return Err(PipelightError::NotFound);
        }
        if !Self::check_all_dated(&found) {
            return Err(PipelightError::IoError);
        }
        let sorted = sort_by_date(found);
        Ok(reclassify_vec(sorted, live))
    }

    /// The distinct pipeline names of the history, each at its first
    /// occurrence.
    fn distinct_names_exec(&self) -> (names: Vec<String>)
        ensures
            str_views(names@) == distinct_names(log_views(self.records@)),
    {
        let ghost vs = log_views(self.records@);
        let n = self.records.len();
        let mut names: Vec<String> = Vec::new();
        let mut i: usize = 0;
        while i < n
            invariant
                i <= n,
                n == self.records@.len(),
                vs == log_views(self.records@),
                str_views(names@) == distinct_names(vs.take(i as int)),
            decreases n - i,
        {
            proof {
                assert(vs.take(i as int + 1).drop_last() =~= vs.take(i as int));
                assert(vs.take(i as int + 1).last() == vs[i as int]);
                assert(vs[i as int] == self.records@[i as int]@);
            }
            let rec = &self.records[i];
            if !contains_str(&names, rec.name.as_str()) {
                let ghost prev = names@;
                names.push(rec.name.clone());
                proof {
                    assert(str_views(prev.push(rec.name)) =~= str_views(prev).push(rec.name@));
                }
            }
            i += 1;
        }
        proof {
            assert(vs.take(n as int) =~= vs);
        }
        names
    }

    /// One entry per pipeline that has run: its newest record, with abort
    /// detection applied, the entries ordered by date ascending. `NotFound`
    /// exactly when the history is empty; `IoError` exactly when some record
    /// carries an unreadable date.
    pub fn get(&self, live: &Vec<u64>) -> (r: Result<Vec<PipelineLog>, PipelightError>)
        ensures
            ({
                let vs = log_views(self.records@);
                match r {
                    Ok(v) => vs.len() > 0 && all_dated(vs) && log_views(v@) == reclassify_all(
                        sort_dated(latest_per_name(vs)),
                        live@,
                    ),
                    Err(PipelightError::NotFound) => vs.len() == 0,
                    Err(PipelightError::IoError) => vs.len() > 0 && !all_dated(vs),
                    Err(_) => false,
                }
            }),
    {
        let ghost vs = log_views(self.records@);
        if self.records.len() == 0 {
            return Err(PipelightError::NotFound);
        }
        if !Self::check_all_dated(&self.records) {
            return Err(PipelightError::IoError);
        }
        let names = self.distinct_names_exec();
        let ghost dn = distinct_names(vs);
        let k = names.len();
        let mut latest: Vec<PipelineLog> = Vec::new();
        let mut i: usize = 0;
        while i < k
            invariant
                i <= k,
                k == names@.len(),
                vs == log_views(self.records@),
                all_dated(vs),
                str_views(names@) == dn,
                dn == distinct_names(vs),
                log_views(latest@) == latest_per_name(vs).take(i as int),
            decreases k - i,
        {
            proof {
                assert(names@[i as int]@ == dn[i as int]);
                assert(dn.contains(dn[i as int]));
                lemma_distinct_names_nonempty(vs, dn[i as int]);
                lemma_with_name_all_dated(vs, dn[i as int]);
            }
            let found = self.records_with_name(names[i].as_str());
            let sorted = sort_by_date(found);
            proof {
                lemma_sort_dated_props(with_name(vs, dn[i as int]));
            }
            let newest = sorted[sorted.len() - 1].clone();
            proof {
                assert(newest@ == log_views(sorted@)[sorted@.len() - 1]);
                assert(newest@ == latest_of(vs, dn[i as int]));
            }
            let ghost prev = latest@;
            latest.push(newest);
            proof {
                lemma_log_views_push(prev, newest);
                assert(log_views(latest@) =~= latest_per_name(vs).take(i as int + 1));
            }
            i += 1;
        }
        proof {
            assert(latest_per_name(vs).take(k as int) =~= latest_per_name(vs));
            assert(all_dated(log_views(latest@))) by {
                assert forall|j: int| 0 <= j < latest_per_name(vs).len() implies dated(
                    #[trigger] latest_per_name(vs)[j],
                ) by {
                    assert(dn.contains(dn[j]));
                    lemma_distinct_names_nonempty(vs, dn[j]);
                    lemma_latest_of_dated(vs, dn[j]);
                }
            }
        }
        let sorted = sort_by_date(latest);
        Ok(reclassify_vec(sorted, live))
    }
}

/// Law: a record appended with a date no earlier than every existing record
/// of its pipeline is exactly what `get_by_name` then reconstructs, and when
/// its process is alive or its status is terminal it comes back identical —
/// same status, date and session id.
pub proof fn lemma_append_get_round_trip(
    s: Seq<PipelineLogView>,
    r: PipelineLogView,
    live: Seq<u64>,
)
    requires
        dated(r),
        forall|i: int|
            0 <= i < with_name(s, r.name).len() ==> le_date(
                #[trigger] with_name(s, r.name)[i],
                r,
            ),
        pid_alive(r.pid, live) || !(r.state == PipelineState::Started || r.state
            == PipelineState::Running),
    ensures
        with_name(s.push(r), r.name).len() > 0,
        sort_dated(with_name(s.push(r), r.name)).last() == r,
        spec_reclassify(sort_dated(with_name(s.push(r), r.name)).last(), live) == r,
{
    let m = with_name(s, r.name);
    assert(s.push(r).drop_last() =~= s);
    assert(s.push(r).last() == r);
    assert(with_name(s.push(r), r.name) == m.push(r));
    assert(m.push(r).drop_last() =~= m);
    assert(m.push(r).last() == r);
    assert(sort_dated(m.push(r)) == insert_dated(sort_dated(m), r));
    let t = sort_dated(m);
    lemma_sort_dated_props(m);
    if t.len() == 0 {
        assert(insert_dated(t, r) == seq![r]);
    } else {
        assert(t.contains(t[t.len() - 1]));
        lemma_sort_dated_contains(m, t.last());
        let j = choose|j: int| 0 <= j < m.len() && m[j] == t.last();
        assert(le_date(m[j], r));
        assert(insert_dated(t, r) == t.push(r));
    }
}

/// Law: abort inference — when the newest record of a pipeline says
/// `Started` or `Running` but its recorded process is not among the live
/// ones, the reconstructed status is `Aborted` with no process attached,
/// while the stored record itself keeps its status, date, name and session
/// (reads take the store by shared reference and never rewrite it).
pub proof fn lemma_abort_inference(s: Seq<PipelineLogView>, name: Seq<char>, live: Seq<u64>)
    requires
        with_name(s, name).len() > 0,
        latest_of(s, name).state == PipelineState::Running || latest_of(s, name).state
            == PipelineState::Started,
        !pid_alive(latest_of(s, name).pid, live),
    ensures
        spec_reclassify(latest_of(s, name), live).state == PipelineState::Aborted,
        spec_reclassify(latest_of(s, name), live).pid is None,
        spec_reclassify(latest_of(s, name), live).name == latest_of(s, name).name,
        spec_reclassify(latest_of(s, name), live).date == latest_of(s, name).date,
        spec_reclassify(latest_of(s, name), live).sid == latest_of(s, name).sid,
{
}

/// Is one of the strings of `v` equal to `s`?
fn contains_str(v: &Vec<String>, s: &str) -> (r: bool)
    ensures
        r == str_views(v@).contains(s@),
{
    let n = v.len();
    let mut i: usize = 0;
    while i < n
        invariant
            i <= n,
            n == v@.len(),
            forall|j: int| 0 <= j < i ==> str_views(v@)[j] != s@,
        decreases n - i,
    {
        proof {
            assert(str_views(v@)[i as int] == v@[i as int]@);
        }
        if str_eq(v[i].as_str(), s) {
            return true;
        }
        i += 1;
    }
    false
}

} // verus!
